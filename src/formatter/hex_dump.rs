use vstd::prelude::*;
use crate::formatter::Style;

verus! {

/// Settings of a conventional offset, hex and ASCII dump.
#[derive(Clone, Copy, PartialEq, Eq, Debug)]
pub struct HexDump {
    pub width: usize,
    pub style: Option<Style>,
}

impl Default for HexDump {
    fn default() -> (r: HexDump)
        ensures
            r.width == 16 && r.style is None,
    {
        HexDump { width: 16, style: None }
    }
}

impl HexDump {
    /// Sets how many bytes each line shows.
    pub fn width(self, value: usize) -> (r: HexDump)
        ensures
            r == (HexDump { width: value, ..self }),
    {
        HexDump { width: value, ..self }
    }

    /// Sets the styles.
    pub fn style(self, value: Style) -> (r: HexDump)
        ensures
            r == (HexDump { style: Some(value), ..self }),
    {
        HexDump { style: Some(value), ..self }
    }
}

} // verus!
