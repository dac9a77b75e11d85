use vstd::prelude::*;

pub mod constant;
pub mod garbage;
pub mod named;
pub mod padding;
pub mod unknown;

pub use self::constant::Constant;
pub use self::garbage::Garbage;
pub use self::named::Named;
pub use self::padding::Padding;
pub use self::unknown::Unknown;

verus! {

/// Number of whole bytes that hold `bits` bits: `ceil(bits / 8)`.
pub open spec fn byte_len(bits: nat) -> nat {
    (bits + 7) / 8
}

/// How many bytes a field of `bits` bits consumes.
pub fn bytes(bits: usize) -> (r: usize)
    ensures
        r == byte_len(bits as nat),
        r * 8 >= bits,
        r * 8 < bits + 8,
{
    let whole = bits / 8;
    if bits % 8 == 0 {
        whole
    } else {
        whole + 1
    }
}

/// One fixed-width unit of a packet layout.
#[derive(Clone, Debug)]
pub enum Field {
    Constant(Constant),
    Garbage(Garbage),
    Unknown(Unknown),
    Padding(Padding),
    Named(Named),
}

impl Field {
    /// Width in bits.
    pub open spec fn spec_bits(&self) -> nat {
        match self {
            Field::Constant(v) => v.spec_bits(),
            Field::Garbage(v) => v.spec_bits(),
            Field::Unknown(v) => v.spec_bits(),
            Field::Padding(v) => v.spec_bits(),
            Field::Named(v) => v.spec_bits(),
        }
    }

    /// Width in bits.
    pub fn bits(&self) -> (r: usize)
        ensures
            r == self.spec_bits(),
    {
        match self {
            Field::Constant(v) => v.bits(),
            Field::Garbage(v) => v.bits(),
            Field::Unknown(v) => v.bits(),
            Field::Padding(v) => v.bits(),
            Field::Named(v) => v.bits(),
        }
    }

    /// Starts a constant field.
    pub fn constant() -> (r: constant::Builder)
        ensures
            r.bits is None && r.value is None,
    {
        constant::Builder::new()
    }

    /// Starts a named field.
    pub fn named(name: String) -> (r: named::Builder)
        ensures
            r == (named::Builder {
                bits: None,
                name: Some(name),
                style: None,
                binary: false,
                endian: None,
                kind: None,
            }),
    {
        named::Builder::new().name(name)
    }

    /// Starts a padding field.
    pub fn padding() -> (r: padding::Builder)
        ensures
            r.bits is None,
    {
        padding::Builder::new()
    }

    /// Starts a garbage field.
    pub fn garbage() -> (r: garbage::Builder)
        ensures
            r.bits is None,
    {
        garbage::Builder::new()
    }

    /// Starts an unknown field.
    pub fn unknown() -> (r: unknown::Builder)
        ensures
            r.bits is None,
    {
        unknown::Builder::new()
    }
}

} // verus!
