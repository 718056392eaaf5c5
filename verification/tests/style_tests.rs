use moon_core::style::{render_message, MessagePart, TextStyle};
use moon_core::terminal::{entry_label, format_label, label_style, Label, LabelStyle};

#[test]
fn label_colors_come_from_the_palette() {
    assert_eq!(label_style(Label::Failure), LabelStyle { foreground: 15, background: 161 });
}

#[test]
fn styled_parts_show_the_value_plain_or_colored() {
    let painted = render_message(&vec![MessagePart::Styled("app:build".to_string(), TextStyle::Label)]);
    assert!(painted == "app:build" || painted == "\u{1b}[38;5;39mapp:build\u{1b}[0m", "{:?}", painted);
    let painted = render_message(&vec![MessagePart::Styled("-".to_string(), TextStyle::Muted)]);
    assert!(painted == "-" || painted == "\u{1b}[38;5;239m-\u{1b}[0m", "{:?}", painted);
}

#[test]
fn entry_label_shows_the_key_plain_or_bold() {
    let label = entry_label("key");
    assert!(
        label == "key:"
            || label == "\u{1b}[1mkey\u{1b}[0m:"
            || label == "\u{1b}[38;5;246mkey:\u{1b}[0m"
            || label == "\u{1b}[38;5;246m\u{1b}[1mkey\u{1b}[0m:\u{1b}[0m",
        "{:?}",
        label
    );
}

#[test]
fn format_label_shows_the_text_plain_or_in_colors() {
    let label = format_label(Label::Brand, "ok");
    assert!(
        label == " OK " || label == "\u{1b}[38;5;16m\u{1b}[48;5;111m\u{1b}[1m OK \u{1b}[0m",
        "{:?}",
        label
    );
}

#[test]
fn path_parts_show_the_path() {
    let value = "/nonexistent-place/templates/file.tera";
    let painted = render_message(&vec![MessagePart::Styled(value.to_string(), TextStyle::Path)]);
    let colored = format!("\u{1b}[38;5;38m{}\u{1b}[0m", value);
    assert!(painted == value || painted == colored, "{:?}", painted);
}
