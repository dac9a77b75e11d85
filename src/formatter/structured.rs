//! The RFC-style diagram: 32 bits to a row, each field a cell twice its
//! width in characters, centred text, and a rule under every full row.
use vstd::prelude::*;
use vstd::string::*;
use crate::definition::Definition;
use crate::field::named::{decoded, Named};
use crate::field::{byte_len, Field};
use crate::formatter::{Formatter, Style};
use crate::reader::Reader;
use crate::style::{paint_into, painted, TextStyle};
use crate::text::{
    bin_token, hex2, hex_token, int_text, push_bin_token, push_hex_token, push_int, push_spaces,
    spaces,
};
use crate::Error;

verus! {

/// The bit ruler and the first rule, drawn above the diagram.
pub open spec fn header_text() -> Seq<char> {
    " 0                   1                   2                   3\n 0 1 2 3 4 5 6 7 8 9 0 1 2 3 4 5 6 7 8 9 0 1 2 3 4 5 6 7 8 9 0 1\n+-+-+-+-+-+-+-+-+-+-+-+-+-+-+-+-+-+-+-+-+-+-+-+-+-+-+-+-+-+-+-+-+\n"@
}

/// The end of a full row: its closing bar and the rule under it.
pub open spec fn row_end_text() -> Seq<char> {
    "|\n+-+-+-+-+-+-+-+-+-+-+-+-+-+-+-+-+-+-+-+-+-+-+-+-+-+-+-+-+-+-+-+-+\n"@
}

fn header_str() -> (r: &'static str)
    ensures
        r@ == header_text(),
{
    " 0                   1                   2                   3\n 0 1 2 3 4 5 6 7 8 9 0 1 2 3 4 5 6 7 8 9 0 1 2 3 4 5 6 7 8 9 0 1\n+-+-+-+-+-+-+-+-+-+-+-+-+-+-+-+-+-+-+-+-+-+-+-+-+-+-+-+-+-+-+-+-+\n"
}

fn row_end_str() -> (r: &'static str)
    ensures
        r@ == row_end_text(),
{
    "|\n+-+-+-+-+-+-+-+-+-+-+-+-+-+-+-+-+-+-+-+-+-+-+-+-+-+-+-+-+-+-+-+-+\n"
}

/// Characters in the cell of a field of `bits` bits: two for each bit, less
/// the bar that opens the cell.
pub open spec fn cell_width(bits: nat) -> nat {
    if bits == 0 {
        0
    } else {
        (2 * bits - 1) as nat
    }
}

/// Spaces left of a token of `len` characters centred in `width`: half of
/// the room, rounded up.
pub open spec fn left_pad(len: nat, width: nat) -> nat {
    if len >= width {
        0
    } else {
        let rem = (width - len) as nat;
        if rem % 2 == 0 {
            rem / 2
        } else {
            rem / 2 + 1
        }
    }
}

/// Spaces right of a centred token: half of the room, rounded down.
pub open spec fn right_pad(len: nat, width: nat) -> nat {
    if len >= width {
        0
    } else {
        ((width - len) as nat) / 2
    }
}

/// A cell: its opening bar, then the token centred and styled.
pub open spec fn cell_text(token: Seq<char>, bits: nat, style: Option<TextStyle>) -> Seq<char> {
    let w = cell_width(bits);
    seq!['|'] + spaces(left_pad(token.len(), w)) + painted(style, token) + spaces(
        right_pad(token.len(), w),
    )
}

/// The blank cell of a zero padding byte. It opens with a bar unless it
/// continues a run of zero padding inside a row.
pub open spec fn pad_cell_text(consumed: nat, padding: bool) -> Seq<char> {
    if padding && consumed != 0 {
        seq![' '] + spaces(15)
    } else {
        seq!['|'] + spaces(15)
    }
}

/// Where the diagram stands: bits used of the current row, whether the last
/// cell was zero padding, and how many rows were closed.
pub struct Cursor {
    pub consumed: nat,
    pub padding: bool,
    pub rows: nat,
}

/// The cursor after a cell of `bits` bits.
pub open spec fn advance(cur: Cursor, bits: nat, padding: bool) -> Cursor {
    let c = (cur.consumed + bits) % 32;
    Cursor { consumed: c, padding, rows: if c == 0 { cur.rows + 1 } else { cur.rows } }
}

/// What follows a cell that leaves `consumed` bits used: the row's end when
/// the row is full.
pub open spec fn after_cell_text(consumed: nat) -> Seq<char> {
    if consumed == 0 {
        row_end_text()
    } else {
        Seq::empty()
    }
}

/// `+-` for each bit of an unfinished row.
pub open spec fn partial_rule(n: nat) -> Seq<char> {
    Seq::new(2 * n, |i: int| if i % 2 == 0 { '+' } else { '-' })
}

/// What closes an unfinished last row: its bar and a rule as long as the
/// bits it holds.
pub open spec fn finish_text(consumed: nat) -> Seq<char> {
    if consumed == 0 {
        Seq::empty()
    } else {
        seq!['|', '\n'] + partial_rule(consumed) + seq!['+', '\n']
    }
}

/// The text shown for a named field holding `data`: its decimal value when
/// it has a declared type, else its bytes in binary or hex.
pub open spec fn named_token(n: Named, data: Seq<u8>) -> Seq<char> {
    match n.spec_kind() {
        Some(k) => int_text(decoded(k, n.spec_endian(), data)),
        None => if n.spec_binary() {
            bin_token(data)
        } else {
            hex_token(data)
        },
    }
}

/// The style of a named field: its own, else the styles' default slot.
pub open spec fn named_style(n: Named, style: Option<Style>) -> Option<TextStyle> {
    match n.spec_style() {
        Some(s) => Some(s),
        None => match style {
            Some(p) => Some(p.default),
            None => None,
        },
    }
}

/// The style of a constant field: the match slot when `data` is the
/// expected pattern, else the mismatch slot.
pub open spec fn constant_style(expected: Seq<u8>, data: Seq<u8>, style: Option<Style>) -> Option<
    TextStyle,
> {
    match style {
        Some(p) => if data == expected {
            Some(p.constant.0)
        } else {
            Some(p.constant.1)
        },
        None => None,
    }
}

/// One padding byte: a blank cell when zero, else the byte in hex in the
/// mismatch slot.
pub open spec fn pad_byte_text(b: u8, cur: Cursor, style: Option<Style>) -> (Seq<char>, Cursor) {
    if b == 0 {
        let next = advance(cur, 8, true);
        (pad_cell_text(cur.consumed, cur.padding) + after_cell_text(next.consumed), next)
    } else {
        let next = advance(cur, 8, false);
        let s = match style {
            Some(p) => Some(p.padding.1),
            None => None,
        };
        (cell_text(hex2(b), 8, s) + after_cell_text(next.consumed), next)
    }
}

/// Padding bytes, one cell each.
pub open spec fn padding_text(data: Seq<u8>, cur: Cursor, style: Option<Style>) -> (Seq<char>, Cursor)
    decreases data.len(),
{
    if data.len() == 0 {
        (Seq::empty(), cur)
    } else {
        let (t, c) = pad_byte_text(data[0], cur, style);
        let (rest, c2) = padding_text(data.skip(1), c, style);
        (t + rest, c2)
    }
}

/// A field drawn from the bytes `data` read for it.
pub open spec fn field_text(f: Field, data: Seq<u8>, cur: Cursor, style: Option<Style>) -> (
    Seq<char>,
    Cursor,
) {
    match f {
        Field::Padding(_) => padding_text(data, cur, style),
        _ => {
            let (token, s) = match f {
                Field::Named(n) => (named_token(n, data), named_style(n, style)),
                Field::Constant(c) => (hex_token(data), constant_style(c.spec_value(), data, style)),
                Field::Garbage(_) => (
                    hex_token(data),
                    match style {
                        Some(p) => Some(p.garbage),
                        None => None,
                    },
                ),
                _ => (
                    hex_token(data),
                    match style {
                        Some(p) => Some(p.unknown),
                        None => None,
                    },
                ),
            };
            let next = advance(cur, f.spec_bits(), false);
            (cell_text(token, f.spec_bits(), s) + after_cell_text(next.consumed), next)
        },
    }
}

/// The fields drawn against `input`, each taking `ceil(bits / 8)` bytes, and
/// the unfinished row closed; `None` where `input` runs out.
pub open spec fn fields_text(fields: Seq<Field>, input: Seq<u8>, cur: Cursor, style: Option<Style>) -> Option<
    (Seq<char>, Cursor),
>
    decreases fields.len(),
{
    if fields.len() == 0 {
        Some((finish_text(cur.consumed), cur))
    } else {
        let n = byte_len(fields[0].spec_bits());
        if input.len() < n {
            None
        } else {
            let (t, c) = field_text(fields[0], input.take(n as int), cur, style);
            match fields_text(fields.skip(1), input.skip(n as int), c, style) {
                Some((rest, c2)) => Some((t + rest, c2)),
                None => None,
            }
        }
    }
}

/// The cursor a diagram starts from.
pub open spec fn start() -> Cursor {
    Cursor { consumed: 0, padding: false, rows: 0 }
}

/// The whole diagram of `fields` against `input`.
pub open spec fn diagram(header: bool, style: Option<Style>, fields: Seq<Field>, input: Seq<u8>) -> Option<
    Seq<char>,
> {
    match fields_text(fields, input, start(), style) {
        Some((t, _)) => Some(if header { header_text() + t } else { t }),
        None => None,
    }
}

/// Every field is narrow enough that its cell width fits a `usize`.
pub open spec fn widths_fit(fields: Seq<Field>) -> bool {
    forall|i: int| 0 <= i < fields.len() ==> 2 * #[trigger] fields[i].spec_bits() <= usize::MAX
}

/// Writes the cells of a diagram and tracks where the current row stands.
pub struct Printer {
    /// Bits used of the current row, below 32.
    pub consumed: usize,
    /// Whether the last cell was a zero padding byte.
    pub padding: bool,
    pub output: String,
}

impl Printer {
    /// An empty diagram at the start of a row.
    pub fn new() -> (r: Printer)
        ensures
            r.consumed == 0 && !r.padding && r.output@ == Seq::<char>::empty(),
    {
        Printer { consumed: 0, padding: false, output: String::new() }
    }

    /// Room left of and right of a token of `len` characters centred in
    /// `width`; the odd space goes left. A token wider than the cell gets none.
    pub fn space(len: usize, width: usize) -> (r: (usize, usize))
        ensures
            r.0 == left_pad(len as nat, width as nat),
            r.1 == right_pad(len as nat, width as nat),
            len <= width ==> r.0 + len + r.1 == width,
    {
        if len >= width {
            return (0, 0);
        }
        let rem = width - len;
        let half = rem / 2;
        if rem % 2 == 0 {
            (half, half)
        } else {
            (half + 1, half)
        }
    }

    /// Accounts for a cell of `bits` bits, ending the row when it is full.
    pub fn done(&mut self, bits: usize)
        requires
            old(self).consumed < 32,
        ensures
            final(self).consumed == (old(self).consumed + bits) % 32,
            final(self).padding == old(self).padding,
            final(self).output@ == old(self).output@ + after_cell_text(final(self).consumed as nat),
    {
        self.consumed = (self.consumed + bits % 32) % 32;
        if self.consumed == 0 {
            self.output.append(row_end_str());
        } else {
            assert(self.output@ =~= old(self).output@ + after_cell_text(self.consumed as nat));
        }
    }

    /// Draws a zero padding byte.
    pub fn pad(&mut self)
        requires
            old(self).consumed < 32,
        ensures
            final(self).consumed == (old(self).consumed + 8) % 32,
            final(self).padding,
            final(self).output@ == old(self).output@ + pad_cell_text(
                old(self).consumed as nat,
                old(self).padding,
            ) + after_cell_text(final(self).consumed as nat),
    {
        if self.padding && self.consumed % 32 != 0 {
            crate::style::push_char(&mut self.output, ' ');
        } else {
            crate::style::push_char(&mut self.output, '|');
        }
        push_spaces(&mut self.output, 15);
        self.padding = true;
        self.done(8);
    }

    /// Draws `token` centred in a cell of `bits` bits.
    pub fn print(&mut self, token: &str, bits: usize, style: Option<TextStyle>)
        requires
            old(self).consumed < 32,
            2 * bits <= usize::MAX,
        ensures
            final(self).consumed == (old(self).consumed + bits) % 32,
            !final(self).padding,
            final(self).output@ == old(self).output@ + cell_text(token@, bits as nat, style)
                + after_cell_text(final(self).consumed as nat),
    {
        let width = if bits == 0 { 0 } else { 2 * bits - 1 };
        let (left, right) = Self::space(token.unicode_len(), width);
        let ghost start = self.output@;
        crate::style::push_char(&mut self.output, '|');
        push_spaces(&mut self.output, left);
        paint_into(&mut self.output, style, token);
        push_spaces(&mut self.output, right);
        assert(self.output@ =~= start + cell_text(token@, bits as nat, style));
        self.padding = false;
        self.done(bits);
    }

    /// Draws one byte in hex in a cell of 8 bits.
    pub fn byte(&mut self, data: u8, style: Option<TextStyle>)
        requires
            old(self).consumed < 32,
        ensures
            final(self).consumed == (old(self).consumed + 8) % 32,
            !final(self).padding,
            final(self).output@ == old(self).output@ + cell_text(hex2(data), 8, style)
                + after_cell_text(final(self).consumed as nat),
    {
        let one = [data];
        assert(one@ =~= seq![data]);
        assert(hex_token(seq![data]) == hex2(data));
        self.hex(&one, 8, style);
    }

    /// Draws bytes as binary digits in a cell of `bits` bits.
    pub fn binary(&mut self, data: &[u8], bits: usize, style: Option<TextStyle>)
        requires
            old(self).consumed < 32,
            2 * bits <= usize::MAX,
        ensures
            final(self).consumed == (old(self).consumed + bits) % 32,
            !final(self).padding,
            final(self).output@ == old(self).output@ + cell_text(bin_token(data@), bits as nat, style)
                + after_cell_text(final(self).consumed as nat),
    {
        let mut token = String::new();
        push_bin_token(&mut token, data);
        self.print(token.as_str(), bits, style);
    }

    /// Draws bytes as space-separated hex pairs in a cell of `bits` bits.
    pub fn hex(&mut self, data: &[u8], bits: usize, style: Option<TextStyle>)
        requires
            old(self).consumed < 32,
            2 * bits <= usize::MAX,
        ensures
            final(self).consumed == (old(self).consumed + bits) % 32,
            !final(self).padding,
            final(self).output@ == old(self).output@ + cell_text(hex_token(data@), bits as nat, style)
                + after_cell_text(final(self).consumed as nat),
    {
        let mut token = String::new();
        push_hex_token(&mut token, data);
        self.print(token.as_str(), bits, style);
    }

    /// Closes an unfinished last row.
    pub fn finish(&mut self)
        requires
            old(self).consumed < 32,
        ensures
            final(self).consumed == old(self).consumed,
            final(self).padding == old(self).padding,
            final(self).output@ == old(self).output@ + finish_text(old(self).consumed as nat),
    {
        if self.consumed % 32 == 0 {
            return;
        }
        let ghost start = self.output@;
        crate::style::push_char(&mut self.output, '|');
        crate::style::push_char(&mut self.output, '\n');
        let n = self.consumed;
        let mut i: usize = 0;
        while i < n
            invariant
                n == self.consumed == old(self).consumed,
                self.padding == old(self).padding,
                n < 32,
                i <= n,
                self.output@ == start + seq!['|', '\n'] + partial_rule(i as nat),
            decreases n - i,
        {
            crate::style::push_char(&mut self.output, '+');
            crate::style::push_char(&mut self.output, '-');
            i = i + 1;
            assert(self.output@ =~= start + seq!['|', '\n'] + partial_rule(i as nat));
        }
        crate::style::push_char(&mut self.output, '+');
        crate::style::push_char(&mut self.output, '\n');
        assert(self.output@ =~= start + finish_text(self.consumed as nat));
    }
}

/// Renders a layout as an RFC-style diagram.
#[derive(Clone, Copy, PartialEq, Eq, Debug)]
pub struct Structured {
    /// Whether the bit ruler is drawn above the diagram.
    pub header: bool,
    /// Styles of fields that carry none; no styling when absent.
    pub style: Option<Style>,
}

impl Default for Structured {
    fn default() -> (r: Structured)
        ensures
            !r.header && r.style is None,
    {
        Structured { header: false, style: None }
    }
}

impl Structured {
    /// Sets whether the bit ruler is drawn.
    pub fn header(self, value: bool) -> (r: Structured)
        ensures
            r == (Structured { header: value, ..self }),
    {
        Structured { header: value, ..self }
    }

    /// Sets the styles.
    pub fn style(self, value: Style) -> (r: Structured)
        ensures
            r == (Structured { style: Some(value), ..self }),
    {
        Structured { style: Some(value), ..self }
    }

    fn pick(&self, pick_match: bool) -> (r: Option<TextStyle>)
        ensures
            r == (match self.style {
                Some(p) => Some(if pick_match { p.constant.0 } else { p.constant.1 }),
                None => None,
            }),
    {
        match self.style {
            Some(p) => Some(if pick_match { p.constant.0 } else { p.constant.1 }),
            None => None,
        }
    }

    /// Draws padding bytes, one cell each.
    fn draw_padding(&self, printer: &mut Printer, data: &[u8], Ghost(cur): Ghost<Cursor>) -> (r: Ghost<
        Cursor,
    >)
        requires
            old(printer).consumed < 32,
            cur.consumed == old(printer).consumed,
            cur.padding == old(printer).padding,
        ensures
            final(printer).output@ == old(printer).output@ + padding_text(data@, cur, self.style).0,
            r@ == padding_text(data@, cur, self.style).1,
            final(printer).consumed == r@.consumed < 32,
            final(printer).padding == r@.padding,
    {
        let ghost start = printer.output@;
        let ghost mut drawn: Seq<char> = Seq::empty();
        let ghost mut c = cur;
        assert(data@.skip(0) =~= data@);
        assert(drawn + padding_text(data@, cur, self.style).0 =~= padding_text(data@, cur, self.style).0);
        let mut i: usize = 0;
        while i < data.len()
            invariant
                i <= data@.len(),
                printer.consumed < 32,
                printer.consumed == c.consumed,
                printer.padding == c.padding,
                printer.output@ == start + drawn,
                padding_text(data@, cur, self.style) == (
                drawn + padding_text(data@.skip(i as int), c, self.style).0,
                padding_text(data@.skip(i as int), c, self.style).1),
            decreases data@.len() - i,
        {
            let ghost rest = data@.skip(i as int);
            assert(rest[0] == data@[i as int]);
            assert(rest.skip(1) =~= data@.skip(i as int + 1));
            let ghost step = pad_byte_text(data@[i as int], c, self.style);
            let b = data[i];
            if b != 0 {
                let s = match self.style {
                    Some(p) => Some(p.padding.1),
                    None => None,
                };
                printer.byte(b, s);
            } else {
                printer.pad();
            }
            proof {
                let tail = padding_text(data@.skip(i as int + 1), step.1, self.style);
                assert(drawn + (step.0 + tail.0) =~= (drawn + step.0) + tail.0);
                drawn = drawn + step.0;
                c = step.1;
            }
            i = i + 1;
        }
        assert(data@.skip(data@.len() as int) =~= Seq::<u8>::empty());
        assert(drawn + Seq::<char>::empty() =~= drawn);
        Ghost(c)
    }

    /// Reads one field and draws it.
    #[verifier::spinoff_prover]
    #[verifier::rlimit(80)]
    fn draw_field(
        &self,
        printer: &mut Printer,
        field: &Field,
        input: &mut Reader,
        Ghost(cur): Ghost<Cursor>,
    ) -> (r: Result<Ghost<Cursor>, Error>)
        requires
            old(printer).consumed < 32,
            cur.consumed == old(printer).consumed,
            cur.padding == old(printer).padding,
            2 * field.spec_bits() <= usize::MAX,
        ensures
            match r {
                Ok(next) => {
                    let n = byte_len(field.spec_bits());
                    let drawn = field_text(*field, old(input)@.take(n as int), cur, self.style);
                    &&& n <= old(input)@.len()
                    &&& final(input)@ == old(input)@.skip(n as int)
                    &&& final(printer).output@ == old(printer).output@ + drawn.0
                    &&& next@ == drawn.1
                    &&& final(printer).consumed == next@.consumed < 32
                    &&& final(printer).padding == next@.padding
                },
                Err(e) => e == Error::UnexpectedEnd && old(input)@.len() < byte_len(field.spec_bits()),
            },
    {
        let ghost before = input@;
        match field {
            Field::Named(n) => {
                let style = match n.style() {
                    Some(s) => Some(s),
                    None => match self.style {
                        Some(p) => Some(p.default),
                        None => None,
                    },
                };
                match n.kind() {
                    Some(k) => {
                        let v = match n.decode(k, input) {
                            Ok(v) => v,
                            Err(e) => {
                                return Err(e);
                            },
                        };
                        let mut token = String::new();
                        push_int(&mut token, v.to_i64());
                        printer.print(token.as_str(), n.bits(), style);
                    },
                    None => {
                        let data = match n.read(input) {
                            Ok(d) => d,
                            Err(e) => {
                                return Err(e);
                            },
                        };
                        if n.binary() {
                            printer.binary(data.as_slice(), n.bits(), style);
                        } else {
                            printer.hex(data.as_slice(), n.bits(), style);
                        }
                    },
                }
                let ghost next = advance(cur, field.spec_bits(), false);
                Ok(Ghost(next))
            },
            Field::Constant(c) => {
                let data = match c.read(input) {
                    Ok(d) => d,
                    Err(e) => {
                        return Err(e);
                    },
                };
                let same = c.matches(data.as_slice());
                printer.hex(data.as_slice(), c.bits(), self.pick(same));
                let ghost next = advance(cur, field.spec_bits(), false);
                Ok(Ghost(next))
            },
            Field::Garbage(g) => {
                let data = match g.read(input) {
                    Ok(d) => d,
                    Err(e) => {
                        return Err(e);
                    },
                };
                let s = match self.style {
                    Some(p) => Some(p.garbage),
                    None => None,
                };
                printer.hex(data.as_slice(), g.bits(), s);
                let ghost next = advance(cur, field.spec_bits(), false);
                Ok(Ghost(next))
            },
            Field::Unknown(u) => {
                let data = match u.read(input) {
                    Ok(d) => d,
                    Err(e) => {
                        return Err(e);
                    },
                };
                let s = match self.style {
                    Some(p) => Some(p.unknown),
                    None => None,
                };
                printer.hex(data.as_slice(), u.bits(), s);
                let ghost next = advance(cur, field.spec_bits(), false);
                Ok(Ghost(next))
            },
            Field::Padding(p) => {
                let data = match p.read(input) {
                    Ok(d) => d,
                    Err(e) => {
                        return Err(e);
                    },
                };
                let next = self.draw_padding(printer, data.as_slice(), Ghost(cur));
                Ok(next)
            },
        }
    }

    /// Renders `def` against the bytes of `input`. Fails, having consumed
    /// part of `input`, exactly when `input` runs out before the last field.
    pub fn render(&self, def: &Definition, input: &mut Reader) -> (r: Result<String, Error>)
        requires
            widths_fit(def@),
        ensures
            match r {
                Ok(s) => diagram(self.header, self.style, def@, old(input)@) == Some(s@),
                Err(e) => e == Error::UnexpectedEnd && diagram(self.header, self.style, def@, old(input)@) is None,
            },
    {
        let ghost input0 = input@;
        let ghost total = fields_text(def@, input0, start(), self.style);
        let mut printer = Printer::new();
        if self.header {
            printer.output.append(header_str());
        }
        let ghost hdr = printer.output@;
        let ghost mut drawn: Seq<char> = Seq::empty();
        let ghost mut c = start();
        let fields = def.fields();
        assert(fields@.skip(0) =~= fields@);
        proof {
            match fields_text(def@, input0, start(), self.style) {
                Some((t, _)) => {
                    assert(drawn + t =~= t);
                },
                None => {},
            }
        }
        let mut i: usize = 0;
        while i < fields.len()
            invariant
                fields@ == def@,
                widths_fit(def@),
                i <= fields@.len(),
                printer.consumed < 32,
                printer.consumed == c.consumed,
                printer.padding == c.padding,
                printer.output@ == hdr + drawn,
                hdr == (if self.header { header_text() } else { Seq::<char>::empty() }),
                total == fields_text(def@, input0, start(), self.style),
                input0 == old(input)@,
                total == (match fields_text(fields@.skip(i as int), input@, c, self.style) {
                    Some((t, c2)) => Some((drawn + t, c2)),
                    None => None,
                }),
            decreases fields@.len() - i,
        {
            let ghost rest = fields@.skip(i as int);
            assert(rest[0] == fields@[i as int]);
            assert(rest.skip(1) =~= fields@.skip(i as int + 1));
            let ghost here = input@;
            assert(2 * fields@[i as int].spec_bits() <= usize::MAX);
            match self.draw_field(&mut printer, &fields[i], input, Ghost(c)) {
                Ok(next) => {
                    proof {
                        let n = byte_len(fields@[i as int].spec_bits());
                        let step = field_text(fields@[i as int], here.take(n as int), c, self.style);
                        match fields_text(fields@.skip(i as int + 1), input@, step.1, self.style) {
                            Some((t, c2)) => {
                                assert(drawn + (step.0 + t) =~= (drawn + step.0) + t);
                            },
                            None => {},
                        }
                        drawn = drawn + step.0;
                        c = next@;
                    }
                },
                Err(e) => {
                    assert(fields_text(fields@.skip(i as int), here, c, self.style) is None);
                    return Err(e);
                },
            }
            i = i + 1;
        }
        assert(fields@.skip(i as int) =~= Seq::<Field>::empty());
        printer.finish();
        assert(printer.output@ =~= hdr + (drawn + finish_text(c.consumed)));
        Ok(printer.output)
    }
}

impl Formatter for Structured {
    open spec fn rendered(&self, def: Seq<Field>, input: Seq<u8>) -> Option<Seq<char>> {
        diagram(self.header, self.style, def, input)
    }

    open spec fn accepts(&self, def: Seq<Field>) -> bool {
        widths_fit(def)
    }

    fn format(&self, def: &Definition, input: &mut Reader) -> (r: Result<String, Error>) {
        self.render(def, input)
    }
}

/// A token no wider than its cell fills it exactly: the left room is half
/// the slack rounded up, the right room half rounded down.
pub proof fn lemma_centering(len: nat, width: nat)
    requires
        len <= width,
    ensures
        left_pad(len, width) + len + right_pad(len, width) == width,
        left_pad(len, width) == (if (width - len) % 2 == 1 {
            (width - len) / 2 + 1
        } else {
            (width - len) / 2
        }),
        right_pad(len, width) == (width - len) / 2,
{
}

/// A constant field drawn against exactly its expected bytes is drawn in the
/// match style; against bytes that differ from them in any one place, in the
/// mismatch style. Either way the cell shows the bytes that were read.
pub proof fn lemma_constant_styles(
    c: crate::field::Constant,
    i: int,
    b: u8,
    cur: Cursor,
    style: Style,
)
    requires
        0 <= i < c.spec_value().len(),
        b != c.spec_value()[i],
    ensures
        field_text(Field::Constant(c), c.spec_value(), cur, Some(style)).0 == cell_text(
            hex_token(c.spec_value()),
            c.spec_bits(),
            Some(style.constant.0),
        ) + after_cell_text((cur.consumed + c.spec_bits()) % 32),
        field_text(Field::Constant(c), c.spec_value().update(i, b), cur, Some(style)).0
            == cell_text(
            hex_token(c.spec_value().update(i, b)),
            c.spec_bits(),
            Some(style.constant.1),
        ) + after_cell_text((cur.consumed + c.spec_bits()) % 32),
{
    assert(c.spec_value().update(i, b)[i] != c.spec_value()[i]);
}

/// Bits a layout declares.
pub open spec fn total_bits(fields: Seq<Field>) -> nat
    decreases fields.len(),
{
    if fields.len() == 0 {
        0
    } else {
        fields[0].spec_bits() + total_bits(fields.skip(1))
    }
}

/// Whether no cell of the layout, started at `consumed` bits into a row,
/// runs past the row's end: each field is non-empty and ends within its
/// row, and padding, drawn a byte at a time, starts on a byte boundary and
/// is whole bytes.
pub open spec fn rows_aligned(fields: Seq<Field>, consumed: nat) -> bool
    decreases fields.len(),
{
    if fields.len() == 0 {
        true
    } else {
        let f = fields[0];
        &&& match f {
            Field::Padding(_) => consumed % 8 == 0 && f.spec_bits() % 8 == 0,
            _ => 0 < f.spec_bits() && consumed + f.spec_bits() <= 32,
        }
        &&& rows_aligned(fields.skip(1), (consumed + f.spec_bits()) % 32)
    }
}

proof fn lemma_padding_rows(data: Seq<u8>, cur: Cursor, style: Option<Style>)
    requires
        cur.consumed < 32,
        cur.consumed % 8 == 0,
    ensures
        padding_text(data, cur, style).1.consumed == (cur.consumed + 8 * data.len()) % 32,
        padding_text(data, cur, style).1.rows == cur.rows + (cur.consumed + 8 * data.len()) / 32,
    decreases data.len(),
{
    if data.len() > 0 {
        let next = pad_byte_text(data[0], cur, style).1;
        lemma_padding_rows(data.skip(1), next, style);
        assert(next.consumed == (cur.consumed + 8) % 32);
        assert(next.rows == cur.rows + (cur.consumed + 8) / 32);
    }
}

#[verifier::spinoff_prover]
#[verifier::rlimit(80)]
proof fn lemma_rows_from(fields: Seq<Field>, input: Seq<u8>, cur: Cursor, style: Option<Style>)
    requires
        cur.consumed < 32,
        rows_aligned(fields, cur.consumed),
        fields_text(fields, input, cur, style) is Some,
    ensures
        (fields_text(fields, input, cur, style)->0).1.consumed == (cur.consumed + total_bits(fields)) % 32,
        (fields_text(fields, input, cur, style)->0).1.rows == cur.rows + (cur.consumed + total_bits(fields)) / 32,
    decreases fields.len(),
{
    if fields.len() > 0 {
        let f = fields[0];
        let n = byte_len(f.spec_bits());
        let data = input.take(n as int);
        let step = field_text(f, data, cur, style);
        match f {
            Field::Padding(_) => {
                lemma_padding_rows(data, cur, style);
                assert(8 * n == f.spec_bits());
            },
            _ => {},
        }
        assert(step.1.consumed == (cur.consumed + f.spec_bits()) % 32);
        assert(step.1.rows == cur.rows + (cur.consumed + f.spec_bits()) / 32);
        lemma_rows_from(fields.skip(1), input.skip(n as int), step.1, style);
    }
}

/// A layout whose declared bits fill whole rows, with no cell running past
/// a row's end, leaves the diagram at the start of a row having closed one
/// row, rule and all, for every 32 bits.
pub proof fn lemma_full_rows(fields: Seq<Field>, input: Seq<u8>, style: Option<Style>)
    requires
        total_bits(fields) % 32 == 0,
        rows_aligned(fields, 0),
        fields_text(fields, input, start(), style) is Some,
    ensures
        (fields_text(fields, input, start(), style)->0).1.consumed == 0,
        (fields_text(fields, input, start(), style)->0).1.rows == total_bits(fields) / 32,
{
    lemma_rows_from(fields, input, start(), style);
}

} // verus!
