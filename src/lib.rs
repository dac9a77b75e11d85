//! Declarative bit-level packet layouts, rendered against captured bytes as
//! inline hex or as an RFC-style field diagram.
use vstd::prelude::*;

pub mod definition;
pub mod field;
pub mod formatter;
pub mod reader;
pub mod style;
pub mod text;

pub use definition::Definition;
pub use field::Field;
pub use formatter::Formatter;
pub use reader::Reader;
pub use Endian::{Big as BigEndian, Little as LittleEndian};

verus! {

/// Byte order of a multi-byte field.
#[derive(Clone, Copy, PartialEq, Eq, Debug, Structural)]
pub enum Endian {
    Little,
    Big,
}

/// Failures of reading or decoding a field.
#[derive(Clone, Copy, PartialEq, Eq, Debug, Structural)]
pub enum Error {
    /// The byte source ran out before a field was complete.
    UnexpectedEnd,
    /// A scalar was asked of a field that was not declared with that type.
    TypeMismatch,
}

/// Relies on u16::to_ne_bytes: the two bytes of `v` in the machine's own
/// order, which is either little- or big-endian.
#[verifier::external_body]
fn ne_bytes(v: u16) -> (r: [u8; 2])
    ensures
        (r@[0] == v % 256 && r@[1] == v / 256) || (r@[0] == v / 256 && r@[1] == v % 256),
{
    v.to_ne_bytes()
}

impl Endian {
    /// The byte order of the machine this runs on.
    pub fn native() -> (r: Endian) {
        let b = ne_bytes(1);
        if b[0] == 1 {
            Endian::Little
        } else {
            Endian::Big
        }
    }
}

impl Default for Endian {
    /// The byte order of the machine this runs on.
    fn default() -> (r: Endian) {
        Endian::native()
    }
}

} // verus!
