use vstd::prelude::*;
use vstd::string::*;
use ansi_term::Style as AnsiStyle;

verus! {

/// A terminal colour.
#[derive(Clone, Copy, PartialEq, Eq, Debug)]
pub enum Color {
    Black,
    Red,
    Green,
    Yellow,
    Blue,
    Purple,
    Cyan,
    White,
    /// One of the 256 palette colours.
    Fixed(u8),
    /// A 24-bit colour.
    RGB(u8, u8, u8),
}

/// How a piece of text is drawn on a terminal: colours and font attributes.
#[derive(Clone, Copy, PartialEq, Eq, Debug)]
pub struct TextStyle {
    pub foreground: Option<Color>,
    pub background: Option<Color>,
    pub bold: bool,
    pub dimmed: bool,
    pub italic: bool,
    pub underline: bool,
    pub blink: bool,
    pub reverse: bool,
    pub hidden: bool,
    pub strikethrough: bool,
}

/// The style that changes nothing.
pub open spec fn plain_style() -> TextStyle {
    TextStyle {
        foreground: None,
        background: None,
        bold: false,
        dimmed: false,
        italic: false,
        underline: false,
        blink: false,
        reverse: false,
        hidden: false,
        strikethrough: false,
    }
}

/// The escape sequence that switches the terminal to a style.
pub uninterp spec fn ansi_prefix(s: TextStyle) -> Seq<char>;

/// The escape sequence that ends styled text: nothing for the plain style,
/// else the reset code.
pub open spec fn ansi_suffix(s: TextStyle) -> Seq<char> {
    if s == plain_style() {
        Seq::empty()
    } else {
        seq!['\x1b', '[', '0', 'm']
    }
}

/// Text drawn in an optional style.
pub open spec fn painted(style: Option<TextStyle>, text: Seq<char>) -> Seq<char> {
    match style {
        None => text,
        Some(s) => ansi_prefix(s) + text + ansi_suffix(s),
    }
}

#[verifier::external_type_specification]
#[verifier::external_body]
pub struct ExAnsiColour(ansi_term::Colour);

#[verifier::external_type_specification]
#[verifier::external_body]
pub struct ExAnsiStyle(AnsiStyle);

/// Relies on ansi_term::Colour: each variant is the same colour under the
/// same name.
#[verifier::external_body]
fn ansi_colour(c: Color) -> ansi_term::Colour {
    match c {
        Color::Black => ansi_term::Colour::Black,
        Color::Red => ansi_term::Colour::Red,
        Color::Green => ansi_term::Colour::Green,
        Color::Yellow => ansi_term::Colour::Yellow,
        Color::Blue => ansi_term::Colour::Blue,
        Color::Purple => ansi_term::Colour::Purple,
        Color::Cyan => ansi_term::Colour::Cyan,
        Color::White => ansi_term::Colour::White,
        Color::Fixed(n) => ansi_term::Colour::Fixed(n),
        Color::RGB(r, g, b) => ansi_term::Colour::RGB(r, g, b),
    }
}

/// Relies on ansi_term::Style, whose public fields are the same colours and
/// attributes.
#[verifier::external_body]
fn ansi_style(s: &TextStyle) -> AnsiStyle {
    AnsiStyle {
        foreground: s.foreground.map(ansi_colour),
        background: s.background.map(ansi_colour),
        is_bold: s.bold,
        is_dimmed: s.dimmed,
        is_italic: s.italic,
        is_underline: s.underline,
        is_blink: s.blink,
        is_reverse: s.reverse,
        is_hidden: s.hidden,
        is_strikethrough: s.strikethrough,
    }
}

/// Relies on ansi_term::Style::prefix: the codes depend on the style alone,
/// and a plain style writes none.
#[verifier::external_body]
fn style_prefix(s: &TextStyle) -> (r: String)
    ensures
        r@ == ansi_prefix(*s),
        *s == plain_style() ==> r@.len() == 0,
{
    ansi_style(s).prefix().to_string()
}

/// Relies on ansi_term::Style::suffix: nothing for a plain style, else the
/// reset code `ESC [ 0 m`.
#[verifier::external_body]
fn style_suffix(s: &TextStyle) -> (r: String)
    ensures
        r@ == ansi_suffix(*s),
{
    ansi_style(s).suffix().to_string()
}

/// Relies on String::push: appends one character.
#[verifier::external_body]
pub(crate) fn push_char(out: &mut String, c: char)
    ensures
        final(out)@ == old(out)@.push(c),
{
    out.push(c)
}

/// Appends `text` to `out`, drawn in `style`.
pub fn paint_into(out: &mut String, style: Option<TextStyle>, text: &str)
    ensures
        final(out)@ == old(out)@ + painted(style, text@),
{
    match style {
        None => {
            out.append(text);
        },
        Some(s) => {
            let prefix = style_prefix(&s);
            let suffix = style_suffix(&s);
            out.append(prefix.as_str());
            out.append(text);
            out.append(suffix.as_str());
            assert(out@ =~= old(out)@ + painted(style, text@));
        },
    }
}

impl TextStyle {
    /// The style that changes nothing.
    pub fn plain() -> (r: TextStyle)
        ensures
            r == plain_style(),
    {
        TextStyle {
            foreground: None,
            background: None,
            bold: false,
            dimmed: false,
            italic: false,
            underline: false,
            blink: false,
            reverse: false,
            hidden: false,
            strikethrough: false,
        }
    }
}

} // verus!
