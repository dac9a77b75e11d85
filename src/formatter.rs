use vstd::prelude::*;
use crate::definition::Definition;
use crate::reader::Reader;
use crate::style::{Color, TextStyle};
use crate::Error;

pub mod hex_dump;
pub mod inline;
pub mod structured;

pub use self::hex_dump::HexDump;
pub use self::inline::Inline;
pub use self::structured::Structured;

verus! {

/// Renders a layout against the bytes of a source.
pub trait Formatter {
    /// The text rendered for `def` against `input`, or `None` where `input`
    /// is too short for the layout.
    spec fn rendered(&self, def: Seq<crate::field::Field>, input: Seq<u8>) -> Option<Seq<char>>;

    /// Whether the layout can be rendered: every width fits the arithmetic.
    spec fn accepts(&self, def: Seq<crate::field::Field>) -> bool;

    fn format(&self, def: &Definition, input: &mut Reader) -> (r: Result<String, Error>)
        requires
            self.accepts(def@),
        ensures
            match r {
                Ok(s) => self.rendered(def@, old(input)@) == Some(s@),
                Err(e) => e == Error::UnexpectedEnd && self.rendered(def@, old(input)@) is None,
            },
    ;
}

/// The styles of fields that carry none of their own.
#[derive(Clone, Copy, PartialEq, Eq, Debug)]
pub struct Style {
    /// Named fields.
    pub default: TextStyle,
    /// Constant fields whose bytes match, and those whose bytes do not.
    pub constant: (TextStyle, TextStyle),
    /// Zero padding bytes, and nonzero ones.
    pub padding: (TextStyle, TextStyle),
    pub garbage: TextStyle,
    pub unknown: TextStyle,
}

/// A style with only a foreground colour.
pub open spec fn fg(c: Color) -> TextStyle {
    TextStyle { foreground: Some(c), ..crate::style::plain_style() }
}

/// A style with a foreground and a background colour.
pub open spec fn fg_on(c: Color, b: Color) -> TextStyle {
    TextStyle { foreground: Some(c), background: Some(b), ..crate::style::plain_style() }
}

/// The default styles: white names, dim grey filler, and white on red for
/// bytes that break the layout's expectations.
pub open spec fn default_style() -> Style {
    Style {
        default: fg(Color::White),
        constant: (fg(Color::Fixed(237)), fg_on(Color::Fixed(255), Color::Red)),
        padding: (fg(Color::Fixed(237)), fg_on(Color::Fixed(255), Color::Red)),
        garbage: fg(Color::Fixed(237)),
        unknown: fg(Color::Fixed(240)),
    }
}

impl Default for Style {
    fn default() -> (r: Style)
        ensures
            r == default_style(),
    {
        let plain = TextStyle::plain();
        let dim = TextStyle { foreground: Some(Color::Fixed(237)), ..plain };
        let alarm = TextStyle {
            foreground: Some(Color::Fixed(255)),
            background: Some(Color::Red),
            ..plain
        };
        Style {
            default: TextStyle { foreground: Some(Color::White), ..plain },
            constant: (dim, alarm),
            padding: (dim, alarm),
            garbage: dim,
            unknown: TextStyle { foreground: Some(Color::Fixed(240)), ..plain },
        }
    }
}

} // verus!
