use vstd::prelude::*;
use crate::field::{byte_len, bytes, Field};
use crate::reader::{read_spec, Reader};
use crate::Error;

verus! {

/// Filler whose purpose is not known: it may be padding or garbage.
#[derive(Clone, Copy, PartialEq, Eq, Debug)]
pub struct Unknown {
    bits: usize,
}

impl Unknown {
    pub closed spec fn spec_bits(&self) -> nat {
        self.bits as nat
    }

    /// Width in bits.
    pub fn bits(&self) -> (r: usize)
        ensures
            r == self.spec_bits(),
    {
        self.bits
    }

    /// Reads the field's raw bytes: `ceil(bits / 8)` of them.
    pub fn read(&self, input: &mut Reader) -> (r: Result<Vec<u8>, Error>)
        ensures
            read_spec(byte_len(self.spec_bits()), old(input)@, final(input)@, r),
    {
        input.take(bytes(self.bits))
    }
}

/// Staging values for an unknown field.
#[derive(Clone, Copy, PartialEq, Eq, Debug)]
pub struct Builder {
    pub bits: Option<usize>,
}

impl Builder {
    /// A builder with nothing set.
    pub fn new() -> (r: Builder)
        ensures
            r.bits is None,
    {
        Builder { bits: None }
    }

    /// Sets the width in bits.
    pub fn bits(self, value: usize) -> (r: Builder)
        ensures
            r.bits == Some(value),
    {
        Builder { bits: Some(value) }
    }

    /// Sets the width in bytes.
    pub fn bytes(self, value: usize) -> (r: Builder)
        requires
            value * 8 <= usize::MAX,
        ensures
            r.bits == Some((value * 8) as usize),
    {
        self.bits(value * 8)
    }

    /// The field. The width is required.
    pub fn build(self) -> (r: Field)
        requires
            self.bits is Some,
        ensures
            r matches Field::Unknown(f) && f.spec_bits() == self.bits.unwrap(),
    {
        let bits = match self.bits {
            Some(b) => b,
            None => 0,
        };
        Field::Unknown(Unknown { bits })
    }
}

} // verus!
