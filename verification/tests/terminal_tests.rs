use moon_core::terminal::{
    entry_bool_line, entry_label, entry_line, entry_list_lines, format_label, label_lines,
    label_style, label_text, list_lines, yes_no, Label, LabelStyle,
};

fn strings(values: &[&str]) -> Vec<String> {
    values.iter().map(|v| v.to_string()).collect()
}

#[test]
fn label_styles_use_the_palette_indices() {
    assert_eq!(label_style(Label::Brand), LabelStyle { foreground: 16, background: 111 });
    assert_eq!(label_style(Label::Default), LabelStyle { foreground: 16, background: 15 });
    assert_eq!(label_style(Label::Failure), LabelStyle { foreground: 15, background: 161 });
}

#[test]
fn label_text_pads_and_uppercases() {
    assert_eq!(label_text("build"), " BUILD ");
    assert_eq!(label_text(""), "  ");
}

#[test]
fn format_label_holds_the_label_text() {
    let label = format_label(Label::Failure, "failed");
    assert!(label.contains(" FAILED "));
}

#[test]
fn entry_line_ends_with_the_value() {
    let line = entry_line("Project", "web");
    assert!(line.contains("Project"));
    assert!(line.contains(':'));
    assert!(line.ends_with(" web"));
    assert!(entry_label("Key").contains("Key"));
}

#[test]
fn yes_no_values() {
    assert_eq!(yes_no(true), "Yes");
    assert_eq!(yes_no(false), "No");
    assert!(entry_bool_line("Cached", true).ends_with(" Yes"));
    assert!(entry_bool_line("Cached", false).ends_with(" No"));
}

#[test]
fn list_lines_are_sorted_with_bullets() {
    let lines = list_lines(&strings(&["zeta", "alpha", "mid"]));
    assert_eq!(lines.len(), 3);
    assert!(lines[0].starts_with(' ') && lines[0].ends_with(" alpha") && lines[0].contains('-'));
    assert!(lines[1].ends_with(" mid"));
    assert!(lines[2].ends_with(" zeta"));
    assert!(list_lines(&Vec::new()).is_empty());
}

#[test]
fn entry_list_lines_start_with_the_key() {
    let lines = entry_list_lines("Tags", &strings(&["b", "a"]));
    assert_eq!(lines.len(), 3);
    assert!(lines[0].contains("Tags"));
    assert!(lines[1].ends_with(" a"));
    assert!(lines[2].ends_with(" b"));
}

#[test]
fn label_lines_end_with_a_blank_line() {
    let lines = label_lines(Label::Brand, "moon");
    assert_eq!(lines.len(), 2);
    assert!(lines[0].contains(" MOON "));
    assert_eq!(lines[1], "");
}

#[test]
fn list_lines_ignore_the_order_of_values() {
    let a = list_lines(&strings(&["b", "a", "c", "a"]));
    let b = list_lines(&strings(&["a", "c", "a", "b"]));
    assert_eq!(a, b);
}

#[test]
fn labels_repeat() {
    assert_eq!(format_label(Label::Default, "x"), format_label(Label::Default, "x"));
}
