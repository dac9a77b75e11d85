//! The character sequences that byte values and numbers are shown as.
use vstd::prelude::*;
use crate::style::push_char;

verus! {

/// Lower-case hexadecimal digit of `d < 16`.
pub open spec fn hex_digit(d: nat) -> char {
    if d < 10 {
        ((d + 48) as u8) as char
    } else {
        ((d + 87) as u8) as char
    }
}

/// Decimal digit of `d < 10`.
pub open spec fn dec_digit(d: nat) -> char {
    ((d + 48) as u8) as char
}

/// A byte as two lower-case hex digits.
pub open spec fn hex2(b: u8) -> Seq<char> {
    seq![hex_digit(b as nat / 16), hex_digit(b as nat % 16)]
}

/// Bytes as hex pairs separated by single spaces.
pub open spec fn hex_token(s: Seq<u8>) -> Seq<char>
    decreases s.len(),
{
    if s.len() == 0 {
        Seq::empty()
    } else if s.len() == 1 {
        hex2(s[0])
    } else {
        hex_token(s.drop_last()) + seq![' '] + hex2(s.last())
    }
}

/// Bit `i` of `b`, counting from the most significant, as a digit.
pub open spec fn bit_digit(b: u8, i: nat) -> char {
    if (b as nat / pow2((7 - i) as nat)) % 2 == 1 {
        '1'
    } else {
        '0'
    }
}

/// Powers of two.
pub open spec fn pow2(e: nat) -> nat
    decreases e,
{
    if e == 0 {
        1
    } else {
        2 * pow2((e - 1) as nat)
    }
}

/// A byte as eight binary digits, most significant first.
pub open spec fn bin8(b: u8) -> Seq<char> {
    Seq::new(8, |i: int| bit_digit(b, i as nat))
}

/// Bytes as binary digits, eight for each byte.
pub open spec fn bin_token(s: Seq<u8>) -> Seq<char>
    decreases s.len(),
{
    if s.len() == 0 {
        Seq::empty()
    } else {
        bin_token(s.drop_last()) + bin8(s.last())
    }
}

/// Decimal digits of a natural number, without leading zeros.
pub open spec fn decimal(n: nat) -> Seq<char>
    decreases n,
{
    if n < 10 {
        seq![dec_digit(n)]
    } else {
        decimal(n / 10).push(dec_digit(n % 10))
    }
}

/// An integer in decimal, with a leading minus sign when negative.
pub open spec fn int_text(v: int) -> Seq<char> {
    if v < 0 {
        seq!['-'] + decimal((-v) as nat)
    } else {
        decimal(v as nat)
    }
}

/// `n` spaces.
pub open spec fn spaces(n: nat) -> Seq<char> {
    Seq::new(n, |i: int| ' ')
}

fn hex_char(d: u8) -> (c: char)
    requires
        d < 16,
    ensures
        c == hex_digit(d as nat),
{
    if d < 10 {
        (d + 48) as char
    } else {
        (d + 87) as char
    }
}

/// Appends a byte as two hex digits.
pub fn push_hex2(out: &mut String, b: u8)
    ensures
        final(out)@ == old(out)@ + hex2(b),
{
    push_char(out, hex_char(b / 16));
    push_char(out, hex_char(b % 16));
    assert(out@ =~= old(out)@ + hex2(b));
}

/// Appends bytes as hex pairs separated by spaces.
pub fn push_hex_token(out: &mut String, data: &[u8])
    ensures
        final(out)@ == old(out)@ + hex_token(data@),
{
    let ghost start = out@;
    let mut i: usize = 0;
    while i < data.len()
        invariant
            i <= data@.len(),
            out@ == start + hex_token(data@.take(i as int)),
        decreases data@.len() - i,
    {
        if i > 0 {
            push_char(out, ' ');
        }
        push_hex2(out, data[i]);
        proof {
            let t = data@.take(i as int + 1);
            assert(t.drop_last() =~= data@.take(i as int));
            assert(t.last() == data@[i as int]);
            if i == 0 {
                assert(data@.take(0) =~= Seq::<u8>::empty());
                assert(hex_token(data@.take(0)) =~= Seq::<char>::empty());
            }
        }
        i = i + 1;
        assert(out@ =~= start + hex_token(data@.take(i as int)));
    }
    assert(data@.take(data@.len() as int) =~= data@);
}

/// Appends a byte as eight binary digits.
pub fn push_bin8(out: &mut String, b: u8)
    ensures
        final(out)@ == old(out)@ + bin8(b),
{
    let ghost start = out@;
    let mut i: usize = 0;
    let mut div: u8 = 128;
    assert(pow2(7) == 128) by {
        reveal_with_fuel(pow2, 8);
    }
    while i < 8
        invariant
            i <= 8,
            div as nat == pow2((7 - i) as nat) || (i == 8),
            out@ == start + bin8(b).take(i as int),
        decreases 8 - i,
    {
        proof {
            reveal_with_fuel(pow2, 8);
        }
        let d = (b / div) % 2;
        push_char(out, if d == 1 { '1' } else { '0' });
        assert(out@ =~= start + bin8(b).take(i as int + 1));
        i = i + 1;
        if i < 8 {
            div = div / 2;
        }
    }
    assert(bin8(b).take(8) =~= bin8(b));
}

/// Appends bytes as binary digits.
pub fn push_bin_token(out: &mut String, data: &[u8])
    ensures
        final(out)@ == old(out)@ + bin_token(data@),
{
    let ghost start = out@;
    let mut i: usize = 0;
    while i < data.len()
        invariant
            i <= data@.len(),
            out@ == start + bin_token(data@.take(i as int)),
        decreases data@.len() - i,
    {
        push_bin8(out, data[i]);
        proof {
            let t = data@.take(i as int + 1);
            assert(t.drop_last() =~= data@.take(i as int));
        }
        i = i + 1;
        assert(out@ =~= start + bin_token(data@.take(i as int)));
    }
    assert(data@.take(data@.len() as int) =~= data@);
}

/// Appends a natural number in decimal.
pub fn push_decimal(out: &mut String, n: u64)
    ensures
        final(out)@ == old(out)@ + decimal(n as nat),
    decreases n,
{
    if n >= 10 {
        push_decimal(out, n / 10);
    }
    push_char(out, ((n % 10) as u8 + 48) as char);
    assert(out@ =~= old(out)@ + decimal(n as nat));
}

/// Appends an integer in decimal, with a minus sign when negative.
pub fn push_int(out: &mut String, v: i64)
    requires
        v > i64::MIN,
    ensures
        final(out)@ == old(out)@ + int_text(v as int),
{
    if v < 0 {
        push_char(out, '-');
        push_decimal(out, (-v) as u64);
        assert(out@ =~= old(out)@ + int_text(v as int));
    } else {
        push_decimal(out, v as u64);
    }
}

/// Appends `n` spaces.
pub fn push_spaces(out: &mut String, n: usize)
    ensures
        final(out)@ == old(out)@ + spaces(n as nat),
{
    let ghost start = out@;
    let mut i: usize = 0;
    while i < n
        invariant
            i <= n,
            out@ == start + spaces(i as nat),
        decreases n - i,
    {
        push_char(out, ' ');
        i = i + 1;
        assert(out@ =~= start + spaces(i as nat));
    }
}

} // verus!
