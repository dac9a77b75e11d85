use packet_diagram::field::named::Kind;
use packet_diagram::formatter::structured::Printer;
use packet_diagram::formatter::{Inline, Structured, Style};
use packet_diagram::style::{paint_into, Color, TextStyle};
use packet_diagram::{BigEndian, Definition, Error, Field, Formatter, Reader};

const RULE: &str = "+-+-+-+-+-+-+-+-+-+-+-+-+-+-+-+-+-+-+-+-+-+-+-+-+-+-+-+-+-+-+-+-+\n";

fn sp(n: usize) -> String {
    " ".repeat(n)
}

fn structured(def: &Definition, data: Vec<u8>, f: Structured) -> Result<String, Error> {
    let mut input = Reader::new(data);
    f.format(def, &mut input)
}

#[test]
fn centering_gives_odd_space_to_the_left() {
    assert_eq!(Printer::space(2, 7), (3, 2));
    assert_eq!(Printer::space(2, 6), (2, 2));
    assert_eq!(Printer::space(5, 31), (13, 13));
    assert_eq!(Printer::space(7, 7), (0, 0));
    assert_eq!(Printer::space(9, 7), (0, 0));
    for w in 0..40usize {
        for l in 0..=w {
            let (a, b) = Printer::space(l, w);
            assert_eq!(a + l + b, w);
        }
    }
}

#[test]
fn nibble_fields_need_whole_bytes() {
    let def = Definition::new()
        .field(Field::named("version".to_string()).bits(4).build())
        .field(Field::named("length".to_string()).bits(4).build())
        .field(Field::padding().bits(24).build());
    let out = structured(&def, vec![0x45, 0x00, 0x00, 0x00], Structured::default());
    assert_eq!(out, Err(Error::UnexpectedEnd));
}

#[test]
fn nibble_fields_then_merged_padding() {
    let def = Definition::new()
        .field(Field::named("version".to_string()).bits(4).build())
        .field(Field::named("length".to_string()).bits(4).build())
        .field(Field::padding().bits(24).build());
    let out = structured(&def, vec![0x45, 0x00, 0x00, 0x00, 0x00], Structured::default()).unwrap();
    let expected = format!(
        "|{}45{}|{}00{}|{}{}{}|\n{}",
        sp(3), sp(2), sp(3), sp(2),
        sp(15), sp(16), sp(16),
        RULE
    );
    assert_eq!(out, expected);
}

#[test]
fn constant_match_and_mismatch_styles() {
    let def = Definition::new().field(Field::constant().bytes(2).value(vec![0xde, 0xad]).build());
    let f = Structured::default().style(Style::default());
    let tail = format!("|\n{}+\n", "+-".repeat(16));
    let good = structured(&def, vec![0xde, 0xad], f).unwrap();
    assert_eq!(good, format!("|{}\x1b[38;5;237mde ad\x1b[0m{}{}", sp(13), sp(13), tail));
    let bad = structured(&def, vec![0xde, 0xaf], f).unwrap();
    assert_eq!(bad, format!("|{}\x1b[41;38;5;255mde af\x1b[0m{}{}", sp(13), sp(13), tail));
}

#[test]
fn header_and_full_row() {
    let def = Definition::new()
        .field(Field::named("len".to_string()).is(Kind::U16, BigEndian).build())
        .field(Field::garbage().bits(16).build());
    let out = structured(&def, vec![0x01, 0x02, 0xab, 0xcd], Structured::default().header(true)).unwrap();
    let header = format!(
        "{}\n{}\n{}",
        " 0                   1                   2                   3",
        " 0 1 2 3 4 5 6 7 8 9 0 1 2 3 4 5 6 7 8 9 0 1 2 3 4 5 6 7 8 9 0 1",
        RULE
    );
    let expected = format!("{}|{}258{}|{}ab cd{}|\n{}", header, sp(14), sp(14), sp(13), sp(13), RULE);
    assert_eq!(out, expected);
}

#[test]
fn two_full_rows_close_twice() {
    let def = Definition::new()
        .field(Field::unknown().bits(32).build())
        .field(Field::garbage().bits(8).build())
        .field(Field::garbage().bits(24).build());
    let out = structured(&def, vec![1, 2, 3, 4, 5, 6, 7, 8], Structured::default()).unwrap();
    assert_eq!(out.matches(RULE).count(), 2);
    assert!(out.ends_with(RULE));
}

#[test]
fn unaligned_end_gets_partial_rule() {
    let def = Definition::new().field(Field::garbage().bits(8).build());
    let out = structured(&def, vec![0x7f], Structured::default()).unwrap();
    assert_eq!(out, format!("|{}7f{}|\n+-+-+-+-+-+-+-+-+\n", sp(7), sp(6)));
}

#[test]
fn nonzero_padding_is_flagged() {
    let def = Definition::new().field(Field::padding().bits(16).build());
    let f = Structured::default().style(Style::default());
    let out = structured(&def, vec![0x00, 0x09], f).unwrap();
    let expected = format!(
        "|{}|{}\x1b[41;38;5;255m09\x1b[0m{}|\n{}+\n",
        sp(15), sp(7), sp(6), "+-".repeat(16)
    );
    assert_eq!(out, expected);
}

#[test]
fn binary_named_field() {
    let def = Definition::new().field(Field::named("flags".to_string()).bits(8).binary().build());
    let out = structured(&def, vec![0b1010_0001], Structured::default()).unwrap();
    assert_eq!(out, format!("|{}10100001{}|\n{}+\n", sp(4), sp(3), "+-".repeat(8)));
}

#[test]
fn field_style_wins_over_table() {
    let bold = TextStyle { bold: true, ..TextStyle::plain() };
    let def = Definition::new().field(Field::named("x".to_string()).bits(8).style(bold).build());
    let out = structured(&def, vec![0x01], Structured::default().style(Style::default())).unwrap();
    assert_eq!(out, format!("|{}\x1b[1m01\x1b[0m{}|\n{}+\n", sp(7), sp(6), "+-".repeat(8)));
}

#[test]
fn painting_wraps_text_in_codes() {
    let mut out = String::new();
    let red = TextStyle { foreground: Some(Color::Red), ..TextStyle::plain() };
    paint_into(&mut out, Some(red), "ab");
    assert_eq!(out, "\x1b[31mab\x1b[0m");
    let mut plain = String::new();
    paint_into(&mut plain, Some(TextStyle::plain()), "ab");
    assert_eq!(plain, "ab");
}

#[test]
fn inline_groups_bytes() {
    let def = Definition::new()
        .field(Field::garbage().bits(16).build())
        .field(Field::padding().bits(8).build());
    let mut input = Reader::new(vec![1, 2, 3]);
    let out = Inline::default().split(2).newline(true).format(&def, &mut input).unwrap();
    assert_eq!(out, "0102 03\n");
    let mut input = Reader::new(vec![1, 2, 3]);
    let out = Inline::default().format(&def, &mut input).unwrap();
    assert_eq!(out, "01 02 03 ");
    let mut input = Reader::new(vec![1, 2]);
    assert_eq!(Inline::default().format(&def, &mut input), Err(Error::UnexpectedEnd));
}
