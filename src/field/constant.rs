use vstd::prelude::*;
use crate::field::{byte_len, bytes, Field};
use crate::reader::{read_spec, Reader};
use crate::Error;

verus! {

/// Bytes expected to equal a fixed pattern.
#[derive(Clone, PartialEq, Eq, Debug)]
pub struct Constant {
    bits: usize,
    value: Vec<u8>,
}

impl Constant {
    pub closed spec fn spec_bits(&self) -> nat {
        self.bits as nat
    }

    pub closed spec fn spec_value(&self) -> Seq<u8> {
        self.value@
    }

    /// Width in bits.
    pub fn bits(&self) -> (r: usize)
        ensures
            r == self.spec_bits(),
    {
        self.bits
    }

    /// The expected bytes.
    pub fn value(&self) -> (r: &[u8])
        ensures
            r@ == self.spec_value(),
    {
        self.value.as_slice()
    }

    /// Reads the field's raw bytes: `ceil(bits / 8)` of them.
    pub fn read(&self, input: &mut Reader) -> (r: Result<Vec<u8>, Error>)
        ensures
            read_spec(byte_len(self.spec_bits()), old(input)@, final(input)@, r),
    {
        input.take(bytes(self.bits))
    }

    /// Whether `data` is exactly the expected pattern.
    pub fn matches(&self, data: &[u8]) -> (r: bool)
        ensures
            r == (data@ == self.spec_value()),
    {
        if data.len() != self.value.len() {
            return false;
        }
        let mut i: usize = 0;
        while i < data.len()
            invariant
                data@.len() == self.value@.len(),
                i <= data@.len(),
                forall|j: int| 0 <= j < i ==> data@[j] == self.value@[j],
            decreases data@.len() - i,
        {
            if data[i] != self.value[i] {
                return false;
            }
            i = i + 1;
        }
        assert(data@ =~= self.value@);
        true
    }
}

/// Staging values for a constant field.
#[derive(Clone, PartialEq, Eq, Debug)]
pub struct Builder {
    pub bits: Option<usize>,
    pub value: Option<Vec<u8>>,
}

impl Builder {
    /// A builder with nothing set.
    pub fn new() -> (r: Builder)
        ensures
            r.bits is None && r.value is None,
    {
        Builder { bits: None, value: None }
    }

    /// Sets the width in bits.
    pub fn bits(self, value: usize) -> (r: Builder)
        ensures
            r == (Builder { bits: Some(value), ..self }),
    {
        Builder { bits: Some(value), ..self }
    }

    /// Sets the width in bytes.
    pub fn bytes(self, value: usize) -> (r: Builder)
        requires
            value * 8 <= usize::MAX,
        ensures
            r == (Builder { bits: Some((value * 8) as usize), ..self }),
    {
        self.bits(value * 8)
    }

    /// Sets the expected bytes, in the order they appear on the wire.
    pub fn value(self, value: Vec<u8>) -> (r: Builder)
        ensures
            r.bits == self.bits && r.value == Some(value),
    {
        Builder { value: Some(value), ..self }
    }

    /// The field; the width is 0 and the pattern empty unless set.
    pub fn build(self) -> (r: Field)
        ensures
            r matches Field::Constant(c) && c.spec_bits() == (match self.bits {
                Some(b) => b as nat,
                None => 0,
            }) && c.spec_value() == (match self.value {
                Some(v) => v@,
                None => Seq::empty(),
            }),
    {
        let bits = match self.bits {
            Some(b) => b,
            None => 0,
        };
        let value = match self.value {
            Some(v) => v,
            None => Vec::new(),
        };
        Field::Constant(Constant { bits, value })
    }
}

} // verus!
