//! Every byte as a hex pair on one line, optionally grouped by spaces.
use vstd::prelude::*;
use crate::definition::Definition;
use crate::field::{byte_len, Field};
use crate::formatter::structured::{constant_style, named_style};
use crate::formatter::{Formatter, Style};
use crate::reader::Reader;
use crate::style::{paint_into, painted, push_char, TextStyle};
use crate::text::{hex2, push_hex2};
use crate::Error;

verus! {

/// Byte number `index` of the output: its hex pair, then a space when it
/// closes a group of `split` bytes.
pub open spec fn byte_text(b: u8, index: nat, split: nat, style: Option<TextStyle>) -> Seq<char> {
    painted(style, hex2(b)) + if split > 0 && (index + 1) % split == 0 {
        seq![' ']
    } else {
        Seq::empty()
    }
}

/// Bytes in one style, the first of them byte number `first` of the output.
pub open spec fn run_text(data: Seq<u8>, first: nat, split: nat, style: Option<TextStyle>) -> Seq<
    char,
>
    decreases data.len(),
{
    if data.len() == 0 {
        Seq::empty()
    } else {
        run_text(data.drop_last(), first, split, style) + byte_text(
            data.last(),
            (first + data.len() - 1) as nat,
            split,
            style,
        )
    }
}

/// The style of a padding byte: the zero slot or the nonzero slot.
pub open spec fn pad_style(b: u8, style: Option<Style>) -> Option<TextStyle> {
    match style {
        Some(p) => Some(if b == 0 { p.padding.0 } else { p.padding.1 }),
        None => None,
    }
}

/// Padding bytes, each styled by whether it is zero.
pub open spec fn pad_run_text(data: Seq<u8>, first: nat, split: nat, style: Option<Style>) -> Seq<
    char,
>
    decreases data.len(),
{
    if data.len() == 0 {
        Seq::empty()
    } else {
        pad_run_text(data.drop_last(), first, split, style) + byte_text(
            data.last(),
            (first + data.len() - 1) as nat,
            split,
            pad_style(data.last(), style),
        )
    }
}

/// The bytes of one field, the first of them byte number `first`.
pub open spec fn field_line(f: Field, data: Seq<u8>, first: nat, split: nat, style: Option<Style>) -> Seq<char> {
    match f {
        Field::Padding(_) => pad_run_text(data, first, split, style),
        Field::Named(n) => run_text(data, first, split, named_style(n, style)),
        Field::Constant(c) => run_text(data, first, split, constant_style(c.spec_value(), data, style)),
        Field::Garbage(_) => run_text(
            data,
            first,
            split,
            match style {
                Some(p) => Some(p.garbage),
                None => None,
            },
        ),
        Field::Unknown(_) => run_text(
            data,
            first,
            split,
            match style {
                Some(p) => Some(p.unknown),
                None => None,
            },
        ),
    }
}

/// The fields' bytes against `input`; `None` where `input` runs out.
pub open spec fn fields_line(
    fields: Seq<Field>,
    input: Seq<u8>,
    first: nat,
    split: nat,
    style: Option<Style>,
) -> Option<Seq<char>>
    decreases fields.len(),
{
    if fields.len() == 0 {
        Some(Seq::empty())
    } else {
        let n = byte_len(fields[0].spec_bits());
        if input.len() < n {
            None
        } else {
            match fields_line(fields.skip(1), input.skip(n as int), first + n, split, style) {
                Some(rest) => Some(field_line(fields[0], input.take(n as int), first, split, style) + rest),
                None => None,
            }
        }
    }
}

/// Writes bytes as hex pairs and counts them for grouping.
pub struct Printer {
    /// Bytes to a group; no grouping when 0.
    pub split: usize,
    /// Whether the output ends with a line break.
    pub newline: bool,
    /// Bytes written so far.
    pub printed: usize,
    pub output: String,
}

impl Printer {
    /// Writes `input` in one style.
    pub fn print(&mut self, input: &[u8], style: Option<TextStyle>)
        requires
            old(self).printed + input@.len() <= usize::MAX,
        ensures
            final(self).split == old(self).split,
            final(self).newline == old(self).newline,
            final(self).printed == old(self).printed + input@.len(),
            final(self).output@ == old(self).output@ + run_text(
                input@,
                old(self).printed as nat,
                old(self).split as nat,
                style,
            ),
    {
        let ghost start = self.output@;
        let ghost first = self.printed as nat;
        let mut i: usize = 0;
        while i < input.len()
            invariant
                i <= input@.len(),
                self.split == old(self).split,
                self.newline == old(self).newline,
                self.printed == first + i,
                first == old(self).printed,
                first + input@.len() <= usize::MAX,
                self.output@ == start + run_text(input@.take(i as int), first, self.split as nat, style),
            decreases input@.len() - i,
        {
            let ghost before = self.output@;
            let mut pair = String::new();
            push_hex2(&mut pair, input[i]);
            paint_into(&mut self.output, style, pair.as_str());
            if self.split > 0 && (self.printed + 1) % self.split == 0 {
                push_char(&mut self.output, ' ');
            }
            proof {
                let t = input@.take(i as int + 1);
                assert(t.drop_last() =~= input@.take(i as int));
                assert(self.output@ =~= start + run_text(t, first, self.split as nat, style));
            }
            self.printed = self.printed + 1;
            i = i + 1;
        }
        assert(input@.take(input@.len() as int) =~= input@);
    }

    /// Writes padding bytes, each styled by whether it is zero.
    pub fn print_padding(&mut self, input: &[u8], style: Option<Style>)
        requires
            old(self).printed + input@.len() <= usize::MAX,
        ensures
            final(self).split == old(self).split,
            final(self).newline == old(self).newline,
            final(self).printed == old(self).printed + input@.len(),
            final(self).output@ == old(self).output@ + pad_run_text(
                input@,
                old(self).printed as nat,
                old(self).split as nat,
                style,
            ),
    {
        let ghost start = self.output@;
        let ghost first = self.printed as nat;
        let mut i: usize = 0;
        while i < input.len()
            invariant
                i <= input@.len(),
                self.split == old(self).split,
                self.newline == old(self).newline,
                self.printed == first + i,
                first == old(self).printed,
                first + input@.len() <= usize::MAX,
                self.output@ == start + pad_run_text(input@.take(i as int), first, self.split as nat, style),
            decreases input@.len() - i,
        {
            let b = input[i];
            let s = match style {
                Some(p) => Some(if b == 0 { p.padding.0 } else { p.padding.1 }),
                None => None,
            };
            let one = [b];
            assert(one@ =~= seq![b]);
            self.print(&one, s);
            proof {
                let t = input@.take(i as int + 1);
                assert(t.drop_last() =~= input@.take(i as int));
                assert(seq![b].drop_last() =~= Seq::<u8>::empty());
                assert(t.last() == b);
                assert(pad_style(b, style) == s);
                assert(seq![b].last() == b);
                assert(run_text(Seq::<u8>::empty(), (first + i) as nat, self.split as nat, s)
                    =~= Seq::<char>::empty());
                assert(run_text(seq![b], (first + i) as nat, self.split as nat, s) =~= byte_text(
                    b,
                    (first + i) as nat,
                    self.split as nat,
                    s,
                ));
                assert(self.output@ =~= start + pad_run_text(t, first, self.split as nat, style));
            }
            i = i + 1;
        }
        assert(input@.take(input@.len() as int) =~= input@);
    }

    /// Ends the line when asked to.
    pub fn finish(&mut self)
        ensures
            final(self).split == old(self).split,
            final(self).newline == old(self).newline,
            final(self).printed == old(self).printed,
            final(self).output@ == old(self).output@ + if old(self).newline {
                seq!['\n']
            } else {
                Seq::empty()
            },
    {
        if self.newline {
            push_char(&mut self.output, '\n');
        } else {
            assert(self.output@ =~= old(self).output@ + Seq::<char>::empty());
        }
    }
}

/// The whole line of `fields` against `input`.
pub open spec fn line(split: nat, newline: bool, style: Option<Style>, fields: Seq<Field>, input: Seq<u8>) -> Option<
    Seq<char>,
> {
    match fields_line(fields, input, 0, split, style) {
        Some(t) => Some(
            if newline {
                t + seq!['\n']
            } else {
                t
            },
        ),
        None => None,
    }
}

/// Renders a layout as one line of hex pairs.
#[derive(Clone, Copy, PartialEq, Eq, Debug)]
pub struct Inline {
    /// Bytes to a group; no grouping when 0.
    pub split: usize,
    /// Whether the line ends with a line break.
    pub newline: bool,
    /// Styles by kind of field; no styling when absent.
    pub style: Option<Style>,
}

impl Default for Inline {
    fn default() -> (r: Inline)
        ensures
            r.split == 1 && !r.newline && r.style is None,
    {
        Inline { split: 1, newline: false, style: None }
    }
}

impl Inline {
    /// Sets how many bytes make a group.
    pub fn split(self, value: usize) -> (r: Inline)
        ensures
            r == (Inline { split: value, ..self }),
    {
        Inline { split: value, ..self }
    }

    /// Sets whether the line ends with a line break.
    pub fn newline(self, value: bool) -> (r: Inline)
        ensures
            r == (Inline { newline: value, ..self }),
    {
        Inline { newline: value, ..self }
    }

    /// Sets the styles.
    pub fn style(self, value: Style) -> (r: Inline)
        ensures
            r == (Inline { style: Some(value), ..self }),
    {
        Inline { style: Some(value), ..self }
    }

    /// Reads one field and writes its bytes.
    fn print_field(&self, printer: &mut Printer, field: &Field, input: &mut Reader) -> (r: Result<(), Error>)
        requires
            old(printer).split == self.split,
            old(printer).printed + old(input)@.len() <= usize::MAX,
        ensures
            final(printer).split == old(printer).split,
            final(printer).newline == old(printer).newline,
            match r {
                Ok(_) => {
                    let n = byte_len(field.spec_bits());
                    &&& n <= old(input)@.len()
                    &&& final(input)@ == old(input)@.skip(n as int)
                    &&& final(printer).printed == old(printer).printed + n
                    &&& final(printer).output@ == old(printer).output@ + field_line(
                        *field,
                        old(input)@.take(n as int),
                        old(printer).printed as nat,
                        self.split as nat,
                        self.style,
                    )
                },
                Err(e) => e == Error::UnexpectedEnd && old(input)@.len() < byte_len(field.spec_bits()),
            },
    {
        match field {
            Field::Named(n) => {
                let data = match n.read(input) {
                    Ok(d) => d,
                    Err(e) => {
                        return Err(e);
                    },
                };
                let style = match n.style() {
                    Some(s) => Some(s),
                    None => match self.style {
                        Some(p) => Some(p.default),
                        None => None,
                    },
                };
                printer.print(data.as_slice(), style);
            },
            Field::Constant(c) => {
                let data = match c.read(input) {
                    Ok(d) => d,
                    Err(e) => {
                        return Err(e);
                    },
                };
                let same = c.matches(data.as_slice());
                let style = match self.style {
                    Some(p) => Some(if same { p.constant.0 } else { p.constant.1 }),
                    None => None,
                };
                printer.print(data.as_slice(), style);
            },
            Field::Garbage(g) => {
                let data = match g.read(input) {
                    Ok(d) => d,
                    Err(e) => {
                        return Err(e);
                    },
                };
                let style = match self.style {
                    Some(p) => Some(p.garbage),
                    None => None,
                };
                printer.print(data.as_slice(), style);
            },
            Field::Unknown(u) => {
                let data = match u.read(input) {
                    Ok(d) => d,
                    Err(e) => {
                        return Err(e);
                    },
                };
                let style = match self.style {
                    Some(p) => Some(p.unknown),
                    None => None,
                };
                printer.print(data.as_slice(), style);
            },
            Field::Padding(p) => {
                let data = match p.read(input) {
                    Ok(d) => d,
                    Err(e) => {
                        return Err(e);
                    },
                };
                printer.print_padding(data.as_slice(), self.style);
            },
        }
        Ok(())
    }

    /// Renders `def` against the bytes of `input`. Fails, having consumed
    /// part of `input`, exactly when `input` runs out before the last field.
    pub fn render(&self, def: &Definition, input: &mut Reader) -> (r: Result<String, Error>)
        ensures
            match r {
                Ok(s) => line(self.split as nat, self.newline, self.style, def@, old(input)@) == Some(s@),
                Err(e) => e == Error::UnexpectedEnd && line(
                    self.split as nat,
                    self.newline,
                    self.style,
                    def@,
                    old(input)@,
                ) is None,
            },
    {
        let ghost input0 = input@;
        let _available = input.remaining();
        let ghost total = fields_line(def@, input0, 0, self.split as nat, self.style);
        let mut printer = Printer { split: self.split, newline: self.newline, printed: 0, output: String::new() };
        let fields = def.fields();
        assert(fields@.skip(0) =~= fields@);
        proof {
            match total {
                Some(t) => {
                    assert(printer.output@ + t =~= t);
                },
                None => {},
            }
        }
        let mut i: usize = 0;
        while i < fields.len()
            invariant
                fields@ == def@,
                i <= fields@.len(),
                printer.split == self.split,
                printer.newline == self.newline,
                printer.printed + input@.len() == input0.len(),
                input0.len() <= usize::MAX,
                input0 == old(input)@,
                total == fields_line(def@, input0, 0, self.split as nat, self.style),
                total == (match fields_line(
                    fields@.skip(i as int),
                    input@,
                    printer.printed as nat,
                    self.split as nat,
                    self.style,
                ) {
                    Some(t) => Some(printer.output@ + t),
                    None => None,
                }),
            decreases fields@.len() - i,
        {
            let ghost rest = fields@.skip(i as int);
            assert(rest[0] == fields@[i as int]);
            assert(rest.skip(1) =~= fields@.skip(i as int + 1));
            let ghost here = input@;
            let ghost out = printer.output@;
            match self.print_field(&mut printer, &fields[i], input) {
                Ok(_) => {
                    proof {
                        let n = byte_len(fields@[i as int].spec_bits());
                        let split = self.split as nat;
                        let first = (printer.printed - n) as nat;
                        let step = field_line(fields@[i as int], here.take(n as int), first, split, self.style);
                        let rest = fields@.skip(i as int + 1);
                        match fields_line(rest, input@, printer.printed as nat, split, self.style) {
                            Some(t) => {
                                assert(out + (step + t) =~= (out + step) + t);
                            },
                            None => {},
                        }
                    }
                },
                Err(e) => {
                    let ghost split = self.split as nat;
                    assert(fields_line(fields@.skip(i as int), here, printer.printed as nat, split, self.style)
                        is None);
                    return Err(e);
                },
            }
            i = i + 1;
        }
        assert(fields@.skip(i as int) =~= Seq::<Field>::empty());
        printer.finish();
        Ok(printer.output)
    }
}

impl Formatter for Inline {
    open spec fn rendered(&self, def: Seq<Field>, input: Seq<u8>) -> Option<Seq<char>> {
        line(self.split as nat, self.newline, self.style, def, input)
    }

    open spec fn accepts(&self, def: Seq<Field>) -> bool {
        true
    }

    fn format(&self, def: &Definition, input: &mut Reader) -> (r: Result<String, Error>) {
        self.render(def, input)
    }
}

} // verus!
