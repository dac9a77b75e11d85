use vstd::prelude::*;
use crate::field::{byte_len, bytes, Field};
use crate::reader::{read_spec, Reader};
use crate::Error;

verus! {

/// Filler known to be irrelevant.
#[derive(Clone, Copy, PartialEq, Eq, Debug)]
pub struct Garbage {
    bits: usize,
}

impl Garbage {
    pub closed spec fn spec_bits(&self) -> nat {
        self.bits as nat
    }

    /// Width in bits.
    pub fn bits(&self) -> (r: usize)
        ensures
            r == self.spec_bits(),
    {
        self.bits
    }

    /// Reads the field's raw bytes: `ceil(bits / 8)` of them.
    pub fn read(&self, input: &mut Reader) -> (r: Result<Vec<u8>, Error>)
        ensures
            read_spec(byte_len(self.spec_bits()), old(input)@, final(input)@, r),
    {
        input.take(bytes(self.bits))
    }
}

/// Staging values for a garbage field.
#[derive(Clone, Copy, PartialEq, Eq, Debug)]
pub struct Builder {
    pub bits: Option<usize>,
}

impl Builder {
    /// A builder with nothing set.
    pub fn new() -> (r: Builder)
        ensures
            r.bits is None,
    {
        Builder { bits: None }
    }

    /// Sets the width in bits.
    pub fn bits(self, value: usize) -> (r: Builder)
        ensures
            r.bits == Some(value),
    {
        Builder { bits: Some(value) }
    }

    /// Sets the width in bytes.
    pub fn bytes(self, value: usize) -> (r: Builder)
        requires
            value * 8 <= usize::MAX,
        ensures
            r.bits == Some((value * 8) as usize),
    {
        self.bits(value * 8)
    }

    /// The field; the width is 0 unless set.
    pub fn build(self) -> (r: Field)
        ensures
            r matches Field::Garbage(g) && g.spec_bits() == (match self.bits {
                Some(b) => b as nat,
                None => 0,
            }),
    {
        let bits = match self.bits {
            Some(b) => b,
            None => 0,
        };
        Field::Garbage(Garbage { bits })
    }
}

} // verus!
