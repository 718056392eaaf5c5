//! Terminal colors and styled text: the calls into the styling crates,
//! and messages made of plain and styled parts.

use starbase_styles::color::{Color, Style};
use vstd::prelude::*;

verus! {

/// The kinds of values that the styling crate paints, each in its own color.
#[derive(Clone, Copy, Debug, PartialEq, Eq, Structural)]
pub enum TextStyle {
    File,
    Id,
    Label,
    Muted,
    MutedLight,
    Path,
    Shell,
}

/// Styles whose values are paths or commands: the styling crate shortens
/// them (the home directory becomes `~`) before painting.
pub open spec fn is_path_style(style: TextStyle) -> bool {
    style == TextStyle::File || style == TextStyle::Path || style == TextStyle::Shell
}

/// The named colors of the styling crate's 256-color palette that labels use.
#[derive(Clone, Copy, Debug, PartialEq, Eq, Structural)]
pub enum ColorName {
    White,
    Black,
    Purple,
    Red,
}

/// The palette index of each named color.
pub open spec fn spec_color_code(color: ColorName) -> u8 {
    match color {
        ColorName::White => 15,
        ColorName::Black => 16,
        ColorName::Purple => 111,
        ColorName::Red => 161,
    }
}

/// The palette index the styling crate paints each style in.
pub open spec fn spec_style_color(style: TextStyle) -> u8 {
    match style {
        TextStyle::File => 36,
        TextStyle::Id => 111,
        TextStyle::Label => 39,
        TextStyle::Muted => 239,
        TextStyle::MutedLight => 246,
        TextStyle::Path => 38,
        TextStyle::Shell => 183,
    }
}

/// `s` with every occurrence of `from` replaced by `to`, matched from the
/// left without overlaps, as `str::replace` does it. An empty `from` matches
/// before every character and at the end.
pub open spec fn replace_all(s: Seq<char>, from: Seq<char>, to: Seq<char>) -> Seq<char>
    decreases s.len(),
{
    if from.len() == 0 {
        if s.len() == 0 {
            to
        } else {
            to + seq![s[0]] + replace_all(s.drop_first(), from, to)
        }
    } else if s.len() < from.len() {
        s
    } else if s.subrange(0, from.len() as int) == from {
        to + replace_all(s.subrange(from.len() as int, s.len() as int), from, to)
    } else {
        seq![s[0]] + replace_all(s.drop_first(), from, to)
    }
}

/// The text the styling crate shows for `value` in `style`: the value
/// itself, or, for path-like styles, the value with the text of the home
/// directory (whatever it is) replaced by `~`.
pub open spec fn is_shown_text(shown: Seq<char>, style: TextStyle, value: Seq<char>) -> bool {
    ||| shown == value
    ||| (is_path_style(style) && exists|home: Seq<char>| shown == replace_all(value, home, seq!['~']))
}

/// `out` is how the styling crate paints `value` in `style`: the shown text
/// alone when colors are off, else in the style's foreground color.
pub open spec fn is_painted(out: Seq<char>, style: TextStyle, value: Seq<char>) -> bool {
    exists|shown: Seq<char>|
        {
            &&& is_shown_text(shown, style, value)
            &&& (out == shown || out == foreground_code(spec_style_color(style)) + shown
                + reset_code())
        }
}

/// The palette index of a named color: `starbase_styles::color::Color`
/// cast to `u8`, whose discriminants the crate fixes (White 15, Black 16,
/// Purple 111, Red 161).
#[verifier::external_body]
pub(crate) fn color_code(color: ColorName) -> (code: u8)
    ensures
        code == spec_color_code(color),
{
    match color {
        ColorName::White => Color::White as u8,
        ColorName::Black => Color::Black as u8,
        ColorName::Purple => Color::Purple as u8,
        ColorName::Red => Color::Red as u8,
    }
}

/// Paints `value` in the color of `style` with
/// `starbase_styles::color::paint_style`, whose styles map to the palette as
/// `spec_style_color` says: the value alone when colors are off, else
/// between the foreground code and the reset code. Path-like styles first
/// replace the home directory's text with `~` (`clean_path`, through
/// `str::replace`). Whether colors are off depends on the environment
/// (`NO_COLOR`, whether stderr is a terminal), and the home directory on the
/// machine; neither is stated.
#[verifier::external_body]
pub(crate) fn paint(style: TextStyle, value: &str) -> (painted: String)
    ensures
        is_painted(painted@, style, value@),
{
    let style = match style {
        TextStyle::File => Style::File,
        TextStyle::Id => Style::Id,
        TextStyle::Label => Style::Label,
        TextStyle::Muted => Style::Muted,
        TextStyle::MutedLight => Style::MutedLight,
        TextStyle::Path => Style::Path,
        TextStyle::Shell => Style::Shell,
    };
    starbase_styles::color::paint_style(style, value)
}

/// The decimal digits of `n`.
pub open spec fn decimal(n: nat) -> Seq<char>
    decreases n,
{
    if n < 10 {
        seq![(48 + n) as char]
    } else {
        decimal(n / 10).push((48 + n % 10) as char)
    }
}

/// A terminal escape sequence that selects a graphic rendition.
pub open spec fn escape_code(params: Seq<char>) -> Seq<char> {
    seq!['\u{1b}', '['] + params + seq!['m']
}

/// The escape code that turns bold on.
pub open spec fn bold_code() -> Seq<char> {
    escape_code(seq!['1'])
}

/// The escape code that resets every rendition.
pub open spec fn reset_code() -> Seq<char> {
    escape_code(seq!['0'])
}

/// The escape code for a 256-color foreground.
pub open spec fn foreground_code(color: u8) -> Seq<char> {
    escape_code(seq!['3', '8', ';', '5', ';'] + decimal(color as nat))
}

/// The escape code for a 256-color background.
pub open spec fn background_code(color: u8) -> Seq<char> {
    escape_code(seq!['4', '8', ';', '5', ';'] + decimal(color as nat))
}

/// Renders `text` in bold with `console::style(..).bold()`: the text alone
/// when the terminal shows no colors, else the bold code, the text and the
/// reset code. Whether it shows colors depends on the terminal and the
/// environment, which is not stated.
#[verifier::external_body]
pub(crate) fn bold(text: &str) -> (styled: String)
    ensures
        styled@ == text@ || styled@ == bold_code() + text@ + reset_code(),
{
    console::style(text).bold().to_string()
}

/// Renders `text` in bold with the given 256-color foreground and background
/// through `console::Style`: the text alone when the terminal shows no
/// colors, else the foreground, background and bold codes, the text and the
/// reset code. As with `bold`, which one comes out is not stated.
#[verifier::external_body]
pub(crate) fn bold_on_colors(text: &str, foreground: u8, background: u8) -> (styled: String)
    ensures
        styled@ == text@ || styled@ == foreground_code(foreground) + background_code(background)
            + bold_code() + text@ + reset_code(),
{
    console::Style::new().attr(console::Attribute::Bold).color256(foreground).on_color256(
        background,
    ).apply_to(text).to_string()
}

/// A piece of a message: text shown as it is, or text painted in a style.
pub enum MessagePart {
    Plain(String),
    Styled(String, TextStyle),
}

/// What a message part holds, as plain values.
pub enum PartView {
    Plain(Seq<char>),
    Styled(Seq<char>, TextStyle),
}

impl View for MessagePart {
    type V = PartView;

    open spec fn view(&self) -> PartView {
        match self {
            MessagePart::Plain(t) => PartView::Plain(t@),
            MessagePart::Styled(t, style) => PartView::Styled(t@, *style),
        }
    }
}

/// The views of a sequence of message parts.
pub open spec fn part_views(parts: Seq<MessagePart>) -> Seq<PartView> {
    parts.map_values(|p: MessagePart| p@)
}

/// `out` is how a part can come out on the terminal: plain text unchanged,
/// styled text painted in its style.
pub open spec fn renders_part(part: PartView, out: Seq<char>) -> bool {
    match part {
        PartView::Plain(t) => out == t,
        PartView::Styled(t, style) => is_painted(out, style, t),
    }
}

/// The concatenation of `pieces`, in order.
pub open spec fn concat_all(pieces: Seq<Seq<char>>) -> Seq<char>
    decreases pieces.len(),
{
    if pieces.len() == 0 {
        Seq::empty()
    } else {
        concat_all(pieces.drop_last()) + pieces.last()
    }
}

/// `out` is the parts rendered one after the other.
pub open spec fn renders(parts: Seq<PartView>, out: Seq<char>) -> bool {
    exists|painted: Seq<Seq<char>>|
        {
            &&& painted.len() == parts.len()
            &&& forall|i: int| 0 <= i < parts.len() ==> renders_part(parts[i], #[trigger] painted[i])
            &&& out == concat_all(painted)
        }
}

/// The parts of a message, each rendered, joined in order.
pub fn render_message(parts: &Vec<MessagePart>) -> (message: String)
    ensures
        renders(part_views(parts@), message@),
{
    let mut message = String::new();
    let ghost mut painted: Seq<Seq<char>> = Seq::empty();
    let mut i: usize = 0;
    while i < parts.len()
        invariant
            i <= parts.len(),
            painted.len() == i,
            forall|k: int|
                0 <= k < i ==> renders_part(part_views(parts@)[k], #[trigger] painted[k]),
            message@ == concat_all(painted),
        decreases parts.len() - i,
    {
        let piece = match &parts[i] {
            MessagePart::Plain(text) => text.clone(),
            MessagePart::Styled(text, style) => paint(*style, text.as_str()),
        };
        assert(renders_part(part_views(parts@)[i as int], piece@));
        message.append(piece.as_str());
        proof {
            let next = painted.push(piece@);
            assert(next.drop_last() =~= painted);
            painted = next;
        }
        i = i + 1;
    }
    assert(renders(part_views(parts@), message@));
    message
}

} // verus!
