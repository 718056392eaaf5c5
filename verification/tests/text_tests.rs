use moon_core::terminal::label_text;
use moon_core::text::{char_is_whitespace, chars_lt, chars_of, sort_texts, split_lines_of, trim_whitespace};

fn strings(values: &[&str]) -> Vec<String> {
    values.iter().map(|v| v.to_string()).collect()
}

#[test]
fn sort_texts_orders_like_std() {
    let values = strings(&["pear", "apple", "Zebra", "app", "apple", "éclair", ""]);
    let mut expected = values.clone();
    expected.sort();
    assert_eq!(sort_texts(&values), expected);
}

#[test]
fn sort_texts_of_nothing_is_nothing() {
    assert!(sort_texts(&Vec::new()).is_empty());
}

#[test]
fn chars_lt_compares_by_first_difference_then_length() {
    let a = chars_of("abc");
    let b = chars_of("abd");
    let ab = chars_of("ab");
    assert!(chars_lt(&a, &b));
    assert!(!chars_lt(&b, &a));
    assert!(chars_lt(&ab, &a));
    assert!(!chars_lt(&a, &ab));
    assert!(!chars_lt(&a, &a));
}

#[test]
fn trim_whitespace_strips_both_ends() {
    assert_eq!(trim_whitespace("  hello world \n\t"), "hello world");
    assert_eq!(trim_whitespace("\u{3000}wide\u{3000}"), "wide");
    assert_eq!(trim_whitespace(" \n "), "");
    assert_eq!(trim_whitespace("inner  space"), "inner  space");
}

#[test]
fn split_lines_of_matches_str_split() {
    for text in ["", "a", "a\nb", "a\n", "\n", "a\n\nb\n", "src/lib.rs\nREADME.md"] {
        let expected: Vec<String> = text.split('\n').map(|s| s.to_string()).collect();
        assert_eq!(split_lines_of(text), expected, "splitting {:?}", text);
    }
}

#[test]
fn label_text_uppercases_unicode() {
    assert_eq!(label_text("straße"), " STRASSE ");
    assert_eq!(label_text("abc 1"), " ABC 1 ");
}

#[test]
fn white_space_is_the_unicode_white_space_property() {
    let listed = |n: u32| {
        (0x09..=0x0d).contains(&n)
            || n == 0x20
            || n == 0x85
            || n == 0xa0
            || n == 0x1680
            || (0x2000..=0x200a).contains(&n)
            || n == 0x2028
            || n == 0x2029
            || n == 0x202f
            || n == 0x205f
            || n == 0x3000
    };
    for n in 0..=0x10ffffu32 {
        if let Some(c) = char::from_u32(n) {
            let s = c.to_string();
            assert_eq!(trim_whitespace(&s).is_empty(), listed(n), "U+{:04X}", n);
        }
    }
}

#[test]
fn char_is_whitespace_agrees_with_std() {
    for n in 0..=0x10ffffu32 {
        if let Some(c) = char::from_u32(n) {
            assert_eq!(char_is_whitespace(c), c.is_whitespace(), "U+{:04X}", n);
        }
    }
}
