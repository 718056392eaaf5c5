//! What the terminal shows: labels, key/value entries and sorted lists,
//! computed as lines for a terminal writer to print.

use crate::style::{
    background_code, bold, bold_code, bold_on_colors, color_code, foreground_code, paint, reset_code,
    is_painted, is_shown_text, spec_style_color, ColorName, TextStyle,
};
use crate::text::{
    lemma_sorted_permutation_unique, sort_texts, texts_sorted, to_uppercase, uppercase_of, views_of,
};
use vstd::prelude::*;

verus! {

/// The kinds of labels, each with its own colors.
#[derive(Clone, Copy, Debug, PartialEq, Eq, Structural)]
pub enum Label {
    Default,
    Brand,
    Failure,
}

/// The 256-color palette indices a label is painted with (always in bold).
#[derive(Clone, Copy, Debug, PartialEq, Eq, Structural)]
pub struct LabelStyle {
    pub foreground: u8,
    pub background: u8,
}

/// Every label is black text, except a failure, which is white on red; a
/// brand label has a purple background and a default one a white background.
pub open spec fn spec_label_style(kind: Label) -> LabelStyle {
    match kind {
        Label::Brand => LabelStyle { foreground: 16, background: 111 },
        Label::Default => LabelStyle { foreground: 16, background: 15 },
        Label::Failure => LabelStyle { foreground: 15, background: 161 },
    }
}

/// The colors of a label.
pub fn label_style(kind: Label) -> (style: LabelStyle)
    ensures
        style == spec_label_style(kind),
{
    // Every label starts as black text; a failure is then switched to white.
    let foreground = color_code(ColorName::Black);
    match kind {
        Label::Brand => LabelStyle { foreground, background: color_code(ColorName::Purple) },
        Label::Default => LabelStyle { foreground, background: color_code(ColorName::White) },
        Label::Failure => LabelStyle {
            foreground: color_code(ColorName::White),
            background: color_code(ColorName::Red),
        },
    }
}

/// The text of a label: the message padded with one space on each side,
/// then uppercased.
pub open spec fn spec_label_text(message: Seq<char>) -> Seq<char> {
    uppercase_of(seq![' '] + message + seq![' '])
}

/// The text of a label.
pub fn label_text(message: &str) -> (text: String)
    ensures
        text@ == spec_label_text(message@),
        text@ == uppercase_of(seq![' '] + message@ + seq![' ']),
{
    let mut padded = String::from_str(" ");
    padded.append(message);
    padded.append(" ");
    proof {
        reveal_strlit(" ");
    }
    assert(padded@ =~= seq![' '] + message@ + seq![' ']);
    to_uppercase(padded.as_str())
}

/// `label` is how the terminal shows a label: its text alone when the
/// terminal shows no colors, else the text in bold in the label's colors.
pub open spec fn is_label(label: Seq<char>, kind: Label, message: Seq<char>) -> bool {
    let style = spec_label_style(kind);
    let text = spec_label_text(message);
    ||| label == text
    ||| label == foreground_code(style.foreground) + background_code(style.background)
        + bold_code() + text + reset_code()
}

/// A label as the terminal shows it: its text in bold, in its colors.
pub fn format_label(kind: Label, message: &str) -> (label: String)
    ensures
        is_label(label@, kind, message@),
{
    let style = label_style(kind);
    let text = label_text(message);
    bold_on_colors(text.as_str(), style.foreground, style.background)
}

/// `label` is how the key of an entry is shown: the key in bold (where the
/// terminal shows it) followed by a colon, all of it muted.
pub open spec fn is_entry_label(label: Seq<char>, key: Seq<char>) -> bool {
    exists|bold_key: Seq<char>|
        (bold_key == key || bold_key == bold_code() + key + reset_code()) && is_painted(
            label,
            TextStyle::MutedLight,
            bold_key + seq![':'],
        )
}

/// The label of an entry: the key in bold, a colon, muted.
pub fn entry_label(key: &str) -> (label: String)
    ensures
        is_entry_label(label@, key@),
{
    let mut key_text = bold(key);
    let ghost bold_key = key_text@;
    key_text.append(":");
    proof {
        reveal_strlit(":");
    }
    assert(key_text@ =~= bold_key + seq![':']);
    paint(TextStyle::MutedLight, key_text.as_str())
}

/// A key/value entry: the entry label, a space, the value.
pub fn entry_line(key: &str, value: &str) -> (line: String)
    ensures
        exists|label: Seq<char>| is_entry_label(label, key@) && line@ =~= label + seq![' '] + value@,
{
    let mut line = entry_label(key);
    let ghost label = line@;
    line.append(" ");
    line.append(value);
    proof {
        reveal_strlit(" ");
    }
    assert(line@ =~= label + seq![' '] + value@);
    line
}

/// How a yes/no value is written in an entry.
pub open spec fn spec_yes_no(value: bool) -> Seq<char> {
    if value {
        seq!['Y', 'e', 's']
    } else {
        seq!['N', 'o']
    }
}

/// `Yes` or `No`.
pub fn yes_no(value: bool) -> (text: &'static str)
    ensures
        text@ == spec_yes_no(value),
{
    proof {
        reveal_strlit("Yes");
        reveal_strlit("No");
    }
    if value {
        "Yes"
    } else {
        "No"
    }
}

/// A key/value entry for a yes/no value.
pub fn entry_bool_line(key: &str, value: bool) -> (line: String)
    ensures
        exists|label: Seq<char>|
            is_entry_label(label, key@) && line@ =~= label + seq![' '] + spec_yes_no(value),
{
    entry_line(key, yes_no(value))
}

/// `lines` lists `values` one per line in ascending order, each line a
/// space, the bullet, a space and the value.
pub open spec fn is_list_of(lines: Seq<Seq<char>>, values: Seq<Seq<char>>, bullet: Seq<char>) -> bool {
    exists|sorted: Seq<Seq<char>>|
        {
            &&& texts_sorted(sorted)
            &&& sorted.to_multiset() =~= values.to_multiset()
            &&& lines.len() == sorted.len()
            &&& forall|i: int|
                0 <= i < lines.len() ==> #[trigger] lines[i] =~= seq![' '] + bullet + seq![' ']
                    + sorted[i]
        }
}

/// The lines of a list: the values sorted, each after a muted dash.
pub fn list_lines(values: &Vec<String>) -> (lines: Vec<String>)
    ensures
        exists|bullet: Seq<char>|
            is_painted(bullet, TextStyle::Muted, seq!['-']) && is_list_of(views_of(lines@), views_of(values@), bullet),
{
    let sorted = sort_texts(values);
    let bullet = paint(TextStyle::Muted, "-");
    proof {
        reveal_strlit("-");
        reveal_strlit(" ");
    }
    let mut lines: Vec<String> = Vec::new();
    let mut i: usize = 0;
    while i < sorted.len()
        invariant
            i <= sorted.len(),
            lines.len() == i,
            forall|k: int|
                0 <= k < i ==> #[trigger] lines@[k]@ =~= seq![' '] + bullet@ + seq![' ']
                    + sorted@[k]@,
        decreases sorted.len() - i,
    {
        let mut line = String::from_str(" ");
        line.append(bullet.as_str());
        line.append(" ");
        line.append(sorted[i].as_str());
        proof {
            reveal_strlit(" ");
        }
        assert(line@ =~= seq![' '] + bullet@ + seq![' '] + sorted@[i as int]@);
        let ghost prev = lines@;
        lines.push(line);
        assert forall|k: int| 0 <= k < i + 1 implies #[trigger] lines@[k]@ =~= seq![' ']
            + bullet@ + seq![' '] + sorted@[k]@ by {
            if k < i {
                assert(lines@[k] == prev[k]);
            }
        }
        i = i + 1;
    }
    proof {
        let lv = views_of(lines@);
        let sv = views_of(sorted@);
        assert forall|k: int| 0 <= k < lv.len() implies #[trigger] lv[k] =~= seq![' '] + bullet@
            + seq![' '] + sv[k] by {
            assert(lv[k] == lines@[k]@);
        }
        assert(is_list_of(lv, views_of(values@), bullet@));
        assert("-"@ =~= seq!['-']);
    }
    lines
}

/// The lines of a keyed list: the entry label of the key, then the list.
pub fn entry_list_lines(key: &str, values: &Vec<String>) -> (lines: Vec<String>)
    ensures
        lines.len() >= 1,
        is_entry_label(lines@[0]@, key@),
        exists|bullet: Seq<char>|
            is_painted(bullet, TextStyle::Muted, seq!['-']) && is_list_of(
                views_of(lines@).drop_first(),
                views_of(values@),
                bullet,
            ),
{
    let mut lines = vec![entry_label(key)];
    let mut items = list_lines(values);
    let ghost item_views = views_of(items@);
    lines.append(&mut items);
    assert(views_of(lines@).drop_first() =~= item_views);
    lines
}

/// The lines of a label: the label, then an empty line.
pub fn label_lines(kind: Label, message: &str) -> (lines: Vec<String>)
    ensures
        lines.len() == 2,
        is_label(lines@[0]@, kind, message@),
        lines@[1]@ == Seq::<char>::empty(),
{
    vec![format_label(kind, message), String::new()]
}

/// A label is fixed by its kind, its message and whether the terminal shows
/// colors: two labels of the same kind and message that are both plain, or
/// both colored, are equal.
pub proof fn lemma_label_determined(first: Seq<char>, second: Seq<char>, kind: Label, message: Seq<char>)
    requires
        is_label(first, kind, message),
        is_label(second, kind, message),
        (first == spec_label_text(message)) == (second == spec_label_text(message)),
    ensures
        first == second,
{
}

/// The order of the values does not matter to a list: values that are a
/// permutation of each other give the same lines with the same bullet.
pub proof fn lemma_list_ignores_order(
    first_lines: Seq<Seq<char>>,
    second_lines: Seq<Seq<char>>,
    first_values: Seq<Seq<char>>,
    second_values: Seq<Seq<char>>,
    bullet: Seq<char>,
)
    requires
        is_list_of(first_lines, first_values, bullet),
        is_list_of(second_lines, second_values, bullet),
        first_values.to_multiset() =~= second_values.to_multiset(),
    ensures
        first_lines == second_lines,
{
    let s1 = choose|sorted: Seq<Seq<char>>|
        {
            &&& texts_sorted(sorted)
            &&& sorted.to_multiset() =~= first_values.to_multiset()
            &&& first_lines.len() == sorted.len()
            &&& forall|i: int|
                0 <= i < first_lines.len() ==> #[trigger] first_lines[i] =~= seq![' '] + bullet
                    + seq![' '] + sorted[i]
        };
    let s2 = choose|sorted: Seq<Seq<char>>|
        {
            &&& texts_sorted(sorted)
            &&& sorted.to_multiset() =~= second_values.to_multiset()
            &&& second_lines.len() == sorted.len()
            &&& forall|i: int|
                0 <= i < second_lines.len() ==> #[trigger] second_lines[i] =~= seq![' '] + bullet
                    + seq![' '] + sorted[i]
        };
    lemma_sorted_permutation_unique(s1, s2);
    assert forall|i: int| 0 <= i < first_lines.len() implies first_lines[i] == second_lines[i] by {
        assert(first_lines[i] =~= seq![' '] + bullet + seq![' '] + s1[i]);
        assert(second_lines[i] =~= seq![' '] + bullet + seq![' '] + s2[i]);
    }
    assert(first_lines =~= second_lines);
}

/// Two lists of the same values, rendered under the same color setting
/// (both bullets plain, or both colored), are identical, whatever order the
/// values came in.
pub proof fn lemma_lists_of_same_values_agree(
    first_lines: Seq<Seq<char>>,
    second_lines: Seq<Seq<char>>,
    first_values: Seq<Seq<char>>,
    second_values: Seq<Seq<char>>,
    first_bullet: Seq<char>,
    second_bullet: Seq<char>,
)
    requires
        is_painted(first_bullet, TextStyle::Muted, seq!['-']),
        is_painted(second_bullet, TextStyle::Muted, seq!['-']),
        (first_bullet == seq!['-']) == (second_bullet == seq!['-']),
        is_list_of(first_lines, first_values, first_bullet),
        is_list_of(second_lines, second_values, second_bullet),
        first_values.to_multiset() =~= second_values.to_multiset(),
    ensures
        first_lines == second_lines,
{
    let s1 = choose|shown: Seq<char>|
        {
            &&& is_shown_text(shown, TextStyle::Muted, seq!['-'])
            &&& (first_bullet == shown || first_bullet == foreground_code(
                spec_style_color(TextStyle::Muted),
            ) + shown + reset_code())
        };
    let s2 = choose|shown: Seq<char>|
        {
            &&& is_shown_text(shown, TextStyle::Muted, seq!['-'])
            &&& (second_bullet == shown || second_bullet == foreground_code(
                spec_style_color(TextStyle::Muted),
            ) + shown + reset_code())
        };
    assert(s1 == seq!['-']);
    assert(s2 == seq!['-']);
    assert(first_bullet == second_bullet);
    lemma_list_ignores_order(first_lines, second_lines, first_values, second_values, first_bullet);
}

/// A label's text is the whole message, padded with one space on each side,
/// put through the uppercase mapping as one text: no part of the message
/// is left out of the mapping or kept as it was.
pub proof fn lemma_label_text_uppercases_whole_message(message: Seq<char>)
    ensures
        spec_label_text(message) == uppercase_of(seq![' '] + message + seq![' ']),
{
}

/// Two messages whose padded forms uppercase alike give the same label
/// text, and a message gives the label text of its padded form uppercased,
/// whatever it holds (spaces included).
pub proof fn lemma_label_text_depends_on_padded_uppercase(first: Seq<char>, second: Seq<char>)
    ensures
        uppercase_of(seq![' '] + first + seq![' ']) == uppercase_of(seq![' '] + second + seq![' '])
            ==> spec_label_text(first) == spec_label_text(second),
{
}

} // verus!
