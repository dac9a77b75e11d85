use vstd::prelude::*;
use crate::field::{byte_len, bytes, Field};
use crate::reader::{read_spec, Reader};
use crate::style::TextStyle;
use crate::{Endian, Error};

verus! {

/// The scalar types a named field can be declared as.
#[derive(Clone, Copy, PartialEq, Eq, Debug, Structural)]
pub enum Kind {
    U8,
    U16,
    U32,
    I8,
    I16,
    I32,
}

/// A decoded scalar.
#[derive(Clone, Copy, PartialEq, Eq, Debug, Structural)]
pub enum Value {
    U8(u8),
    U16(u16),
    U32(u32),
    I8(i8),
    I16(i16),
    I32(i32),
}

impl Kind {
    /// Width of the type in bytes.
    pub open spec fn spec_byte_count(self) -> nat {
        match self {
            Kind::U8 | Kind::I8 => 1,
            Kind::U16 | Kind::I16 => 2,
            Kind::U32 | Kind::I32 => 4,
        }
    }

    pub open spec fn is_signed(self) -> bool {
        self is I8 || self is I16 || self is I32
    }

    /// Width of the type in bits.
    pub fn bits(&self) -> (r: usize)
        ensures
            r == 8 * self.spec_byte_count(),
    {
        match self {
            Kind::U8 | Kind::I8 => 8,
            Kind::U16 | Kind::I16 => 16,
            Kind::U32 | Kind::I32 => 32,
        }
    }
}

impl Value {
    /// The type of the value.
    pub open spec fn kind(self) -> Kind {
        match self {
            Value::U8(_) => Kind::U8,
            Value::U16(_) => Kind::U16,
            Value::U32(_) => Kind::U32,
            Value::I8(_) => Kind::I8,
            Value::I16(_) => Kind::I16,
            Value::I32(_) => Kind::I32,
        }
    }

    /// The value as a mathematical integer.
    pub open spec fn to_int(self) -> int {
        match self {
            Value::U8(v) => v as int,
            Value::U16(v) => v as int,
            Value::U32(v) => v as int,
            Value::I8(v) => v as int,
            Value::I16(v) => v as int,
            Value::I32(v) => v as int,
        }
    }

    /// The value widened to 64 bits.
    pub fn to_i64(&self) -> (r: i64)
        ensures
            r as int == self.to_int(),
    {
        match *self {
            Value::U8(v) => v as i64,
            Value::U16(v) => v as i64,
            Value::U32(v) => v as i64,
            Value::I8(v) => v as i64,
            Value::I16(v) => v as i64,
            Value::I32(v) => v as i64,
        }
    }
}

/// `256^n`.
pub open spec fn pow256(n: nat) -> nat
    decreases n,
{
    if n == 0 {
        1
    } else {
        256 * pow256((n - 1) as nat)
    }
}

/// Bytes read as an unsigned number, most significant first.
pub open spec fn be_nat(s: Seq<u8>) -> nat
    decreases s.len(),
{
    if s.len() == 0 {
        0
    } else {
        be_nat(s.drop_last()) * 256 + s.last() as nat
    }
}

/// Bytes read as an unsigned number in the given byte order.
pub open spec fn ordered_nat(s: Seq<u8>, e: Endian) -> nat {
    match e {
        Endian::Big => be_nat(s),
        Endian::Little => be_nat(s.reverse()),
    }
}

/// An unsigned bit pattern read as a value of `kind` (two's complement for
/// the signed kinds).
pub open spec fn scalar(kind: Kind, u: nat) -> int {
    let m = pow256(kind.spec_byte_count());
    if kind.is_signed() && 2 * u >= m {
        u - m
    } else {
        u as int
    }
}

/// The value that bytes stored in byte order `e` hold as a `kind`.
pub open spec fn decoded(kind: Kind, e: Endian, s: Seq<u8>) -> int {
    scalar(kind, ordered_nat(s, e))
}

/// The bytes put in the machine's order: reversed exactly when the declared
/// order differs from the machine's.
pub fn orient(data: Vec<u8>, declared: Endian, native: Endian) -> (r: Vec<u8>)
    ensures
        r@ == (if declared != native { data@.reverse() } else { data@ }),
{
    if declared != native {
        let mut out: Vec<u8> = Vec::with_capacity(data.len());
        let n = data.len();
        let mut i: usize = 0;
        while i < n
            invariant
                n == data@.len(),
                i <= n,
                out@ == data@.reverse().take(i as int),
            decreases n - i,
        {
            out.push(data[n - 1 - i]);
            i = i + 1;
            assert(out@ =~= data@.reverse().take(i as int));
        }
        assert(data@.reverse().take(n as int) =~= data@.reverse());
        out
    } else {
        data
    }
}

proof fn lemma_pow256_small()
    ensures
        pow256(1) == 256,
        pow256(2) == 65536,
        pow256(4) == 4294967296,
{
    reveal_with_fuel(pow256, 5);
}

/// Reads bytes that are in the machine's order `native` as a `kind`.
pub fn from_native(data: &[u8], kind: Kind, native: Endian) -> (r: Value)
    requires
        data@.len() == kind.spec_byte_count(),
    ensures
        r.kind() == kind,
        r.to_int() == decoded(kind, native, data@),
{
    let n = data.len();
    let ghost s = if native == Endian::Big { data@ } else { data@.reverse() };
    let mut acc: u64 = 0;
    let mut i: usize = 0;
    proof {
        lemma_pow256_small();
        assert(s.take(0) =~= Seq::<u8>::empty());
    }
    while i < n
        invariant
            n == data@.len(),
            n <= 4,
            i <= n,
            s.len() == n,
            s == (if native == Endian::Big { data@ } else { data@.reverse() }),
            acc as nat == be_nat(s.take(i as int)),
            acc < pow256(i as nat),
            pow256(i as nat) <= pow256(4),
            pow256(4) == 4294967296,
        decreases n - i,
    {
        let b = if native == Endian::Big { data[i] } else { data[n - 1 - i] };
        assert(b == s[i as int]);
        proof {
            let p = pow256(i as nat);
            assert(acc * 256 + b < p * 256) by (nonlinear_arith)
                requires acc < p, b < 256;
            assert(pow256((i + 1) as nat) == 256 * p);
            if i + 1 < 4 {
                reveal_with_fuel(pow256, 5);
            }
            assert(pow256((i + 1) as nat) <= pow256(4)) by {
                reveal_with_fuel(pow256, 5);
            }
            assert(s.take(i as int + 1).drop_last() =~= s.take(i as int));
        }
        acc = acc * 256 + b as u64;
        i = i + 1;
    }
    assert(s.take(n as int) =~= s);
    assert(ordered_nat(data@, native) == acc);
    match kind {
        Kind::U8 => Value::U8(acc as u8),
        Kind::U16 => Value::U16(acc as u16),
        Kind::U32 => Value::U32(acc as u32),
        Kind::I8 => if acc >= 128 { Value::I8((acc as i64 - 256) as i8) } else { Value::I8(acc as i8) },
        Kind::I16 => if acc >= 32768 { Value::I16((acc as i64 - 65536) as i16) } else { Value::I16(acc as i16) },
        Kind::I32 => if acc >= 2147483648 { Value::I32((acc as i64 - 4294967296) as i32) } else { Value::I32(acc as i32) },
    }
}

/// Putting bytes in the machine's order and reading them in that order gives
/// the value they hold in their declared order, whatever the machine's order.
pub proof fn lemma_decode_independent_of_native(data: Seq<u8>, kind: Kind, declared: Endian, native: Endian)
    ensures
        decoded(kind, native, if declared != native { data.reverse() } else { data })
            == decoded(kind, declared, data),
{
    assert(data.reverse().reverse() =~= data);
}

/// A two-byte field declared little-endian holds its second byte high; one
/// declared big-endian holds its first byte high. On a machine of the other
/// order the pair is swapped before it is read, on one of the same order it
/// is read as it stands.
pub proof fn lemma_two_byte_orders(b0: u8, b1: u8, native: Endian)
    ensures
        decoded(Kind::U16, Endian::Little, seq![b0, b1]) == b1 * 256 + b0,
        decoded(Kind::U16, Endian::Big, seq![b0, b1]) == b0 * 256 + b1,
        native == Endian::Big ==> decoded(Kind::U16, native, seq![b0, b1].reverse())
            == decoded(Kind::U16, Endian::Little, seq![b0, b1]),
        native == Endian::Little ==> decoded(Kind::U16, native, seq![b0, b1].reverse())
            == decoded(Kind::U16, Endian::Big, seq![b0, b1]),
{
    lemma_pow256_small();
    let s = seq![b0, b1];
    assert(s.reverse() =~= seq![b1, b0]);
    assert(s.reverse().reverse() =~= s);
    assert(s.drop_last() =~= seq![b0]);
    assert(seq![b1, b0].drop_last() =~= seq![b1]);
    assert(seq![b0].drop_last() =~= Seq::<u8>::empty());
    assert(seq![b1].drop_last() =~= Seq::<u8>::empty());
    assert(be_nat(Seq::<u8>::empty()) == 0);
    assert(seq![b0].last() == b0);
    assert(seq![b1].last() == b1);
    assert(be_nat(seq![b0]) == b0);
    assert(be_nat(seq![b1]) == b1);
    assert(s.last() == b1);
    assert(seq![b1, b0].last() == b0);
    assert(be_nat(s) == b0 * 256 + b1);
    assert(be_nat(seq![b1, b0]) == b1 * 256 + b0);
}

} // verus!


verus! {

/// A labelled field, optionally declared as a scalar type.
#[derive(Debug)]
pub struct Named {
    bits: usize,
    name: String,
    style: Option<TextStyle>,
    binary: bool,
    endian: Endian,
    kind: Option<Kind>,
}

impl Clone for Named {
    fn clone(&self) -> (r: Named) {
        proof {
            use_type_invariant(self);
        }
        Named {
            bits: self.bits,
            name: self.name.clone(),
            style: self.style,
            binary: self.binary,
            endian: self.endian,
            kind: self.kind,
        }
    }
}

impl Named {
    /// A declared scalar type always has the field's width.
    #[verifier::type_invariant]
    closed spec fn inv(self) -> bool {
        self.kind matches Some(k) ==> self.bits == 8 * k.spec_byte_count()
    }

    pub closed spec fn spec_bits(&self) -> nat {
        self.bits as nat
    }

    pub closed spec fn spec_name(&self) -> Seq<char> {
        self.name@
    }

    pub closed spec fn spec_style(&self) -> Option<TextStyle> {
        self.style
    }

    pub closed spec fn spec_binary(&self) -> bool {
        self.binary
    }

    pub closed spec fn spec_endian(&self) -> Endian {
        self.endian
    }

    pub closed spec fn spec_kind(&self) -> Option<Kind> {
        self.kind
    }

    pub fn bits(&self) -> (r: usize)
        ensures
            r == self.spec_bits(),
    {
        self.bits
    }

    pub fn name(&self) -> (r: &str)
        ensures
            r@ == self.spec_name(),
    {
        self.name.as_str()
    }

    pub fn style(&self) -> (r: Option<TextStyle>)
        ensures
            r == self.spec_style(),
    {
        self.style
    }

    pub fn binary(&self) -> (r: bool)
        ensures
            r == self.spec_binary(),
    {
        self.binary
    }

    pub fn endian(&self) -> (r: Endian)
        ensures
            r == self.spec_endian(),
    {
        self.endian
    }

    pub fn kind(&self) -> (r: Option<Kind>)
        ensures
            r == self.spec_kind(),
    {
        self.kind
    }

    /// Reads the field's raw bytes: `ceil(bits / 8)` of them.
    pub fn read(&self, input: &mut Reader) -> (r: Result<Vec<u8>, Error>)
        ensures
            read_spec(byte_len(self.spec_bits()), old(input)@, final(input)@, r),
    {
        input.take(bytes(self.bits))
    }

    /// Reads the field as a value of `kind`, which must be its declared type.
    pub fn decode(&self, kind: Kind, input: &mut Reader) -> (r: Result<Value, Error>)
        ensures
            self.spec_kind() != Some(kind) ==> r == Err::<Value, Error>(Error::TypeMismatch) && final(input)@
                == old(input)@,
            self.spec_kind() == Some(kind) ==> match r {
                Ok(v) => byte_len(self.spec_bits()) <= old(input)@.len() && v.kind() == kind
                    && v.to_int() == decoded(
                    kind,
                    self.spec_endian(),
                    old(input)@.take(byte_len(self.spec_bits()) as int),
                ) && final(input)@ == old(input)@.skip(byte_len(self.spec_bits()) as int),
                Err(e) => e == Error::UnexpectedEnd && old(input)@.len() < byte_len(self.spec_bits())
                    && final(input)@ == old(input)@,
            },
    {
        proof {
            use_type_invariant(self);
        }
        let declared = match self.kind {
            Some(k) => k == kind,
            None => false,
        };
        if !declared {
            return Err(Error::TypeMismatch);
        }
        let data = match self.read(input) {
            Ok(d) => d,
            Err(e) => {
                return Err(e);
            },
        };
        let native = Endian::native();
        let ordered = orient(data, self.endian, native);
        proof {
            lemma_decode_independent_of_native(data@, kind, self.endian, native);
        }
        Ok(from_native(ordered.as_slice(), kind, native))
    }
}

/// Staging values for a named field.
#[derive(Clone, Debug)]
pub struct Builder {
    pub bits: Option<usize>,
    pub name: Option<String>,
    pub style: Option<TextStyle>,
    pub binary: bool,
    pub endian: Option<Endian>,
    pub kind: Option<Kind>,
}

impl Builder {
    /// A builder with nothing set.
    pub fn new() -> (r: Builder)
        ensures
            r.bits is None && r.name is None && r.style is None && !r.binary && r.endian is None
                && r.kind is None,
    {
        Builder { bits: None, name: None, style: None, binary: false, endian: None, kind: None }
    }

    /// Sets the width in bits.
    pub fn bits(self, value: usize) -> (r: Builder)
        ensures
            r == (Builder { bits: Some(value), ..self }),
    {
        Builder { bits: Some(value), ..self }
    }

    /// Sets the width in bytes.
    pub fn bytes(self, value: usize) -> (r: Builder)
        requires
            value * 8 <= usize::MAX,
        ensures
            r == (Builder { bits: Some((value * 8) as usize), ..self }),
    {
        self.bits(value * 8)
    }

    /// Sets the label.
    pub fn name(self, name: String) -> (r: Builder)
        ensures
            r == (Builder { name: Some(name), ..self }),
    {
        Builder { name: Some(name), ..self }
    }

    /// Sets the field's own style, which takes precedence over a formatter's.
    pub fn style(self, value: TextStyle) -> (r: Builder)
        ensures
            r == (Builder { style: Some(value), ..self }),
    {
        Builder { style: Some(value), ..self }
    }

    /// Shows the raw bytes as binary digits rather than hex.
    pub fn binary(self) -> (r: Builder)
        ensures
            r == (Builder { binary: true, ..self }),
    {
        Builder { binary: true, ..self }
    }

    /// Declares the field as a scalar of `kind` in byte order `endian`; the
    /// width becomes that of the type.
    pub fn is(self, kind: Kind, endian: Endian) -> (r: Builder)
        ensures
            r == (Builder {
                bits: Some((8 * kind.spec_byte_count()) as usize),
                endian: Some(endian),
                kind: Some(kind),
                ..self
            }),
    {
        Builder { bits: Some(kind.bits()), endian: Some(endian), kind: Some(kind), ..self }
    }

    /// The field. A name is required, and a declared type must keep its width.
    pub fn build(self) -> (r: Field)
        requires
            self.name is Some,
            self.kind matches Some(k) ==> self.bits == Some((8 * k.spec_byte_count()) as usize),
        ensures
            r matches Field::Named(n) && n.spec_name() == self.name.unwrap()@ && n.spec_bits() == (
            match self.bits {
                Some(b) => b as nat,
                None => 0,
            }) && n.spec_style() == self.style && n.spec_binary() == self.binary && n.spec_kind()
                == self.kind && (self.endian matches Some(e) ==> n.spec_endian() == e),
    {
        let bits = match self.bits {
            Some(b) => b,
            None => 0,
        };
        let endian = match self.endian {
            Some(e) => e,
            None => Endian::native(),
        };
        let name = match self.name {
            Some(n) => n,
            None => String::new(),
        };
        Field::Named(
            Named { bits, name, style: self.style, binary: self.binary, endian, kind: self.kind },
        )
    }
}

} // verus!
