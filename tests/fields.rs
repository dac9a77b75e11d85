use packet_diagram::field::bytes;
use packet_diagram::field::named::{Kind, Value};
use packet_diagram::{BigEndian, Definition, Error, Field, LittleEndian, Reader};

fn named(name: &str) -> packet_diagram::field::named::Builder {
    Field::named(name.to_string())
}

#[test]
fn byte_count_rounds_up() {
    assert_eq!(bytes(0), 0);
    assert_eq!(bytes(1), 1);
    assert_eq!(bytes(8), 1);
    assert_eq!(bytes(12), 2);
    assert_eq!(bytes(16), 2);
    assert_eq!(bytes(17), 3);
}

#[test]
fn twelve_bit_field_reads_two_bytes() {
    let field = Field::garbage().bits(12).build();
    let mut input = Reader::new(vec![1, 2, 3]);
    match field {
        Field::Garbage(g) => {
            assert_eq!(g.read(&mut input), Ok(vec![1, 2]));
            assert_eq!(input.remaining(), 1);
        }
        _ => panic!("not a garbage field"),
    }
}

#[test]
fn short_source_is_an_error() {
    let field = Field::unknown().bytes(4).build();
    let mut input = Reader::new(vec![1, 2, 3]);
    match field {
        Field::Unknown(u) => {
            assert_eq!(u.read(&mut input), Err(Error::UnexpectedEnd));
            assert_eq!(input.remaining(), 3);
        }
        _ => panic!("not an unknown field"),
    }
}

#[test]
fn decode_without_type_is_a_mismatch() {
    let field = named("version").bits(8).build();
    let mut input = Reader::new(vec![0x45]);
    match field {
        Field::Named(n) => {
            assert_eq!(n.decode(Kind::U8, &mut input), Err(Error::TypeMismatch));
            assert_eq!(n.decode(Kind::I32, &mut input), Err(Error::TypeMismatch));
            assert_eq!(input.remaining(), 1);
        }
        _ => panic!("not a named field"),
    }
}

#[test]
fn decode_with_other_type_is_a_mismatch() {
    let field = named("length").is(Kind::U16, BigEndian).build();
    let mut input = Reader::new(vec![1, 2]);
    match field {
        Field::Named(n) => {
            assert_eq!(n.decode(Kind::I16, &mut input), Err(Error::TypeMismatch));
            assert_eq!(n.decode(Kind::U16, &mut input), Ok(Value::U16(0x0102)));
        }
        _ => panic!("not a named field"),
    }
}

#[test]
fn decode_follows_declared_byte_order() {
    for (endian, expected) in [(LittleEndian, 0x0201u16), (BigEndian, 0x0102u16)] {
        let field = named("n").is(Kind::U16, endian).build();
        let mut input = Reader::new(vec![0x01, 0x02]);
        match field {
            Field::Named(n) => assert_eq!(n.decode(Kind::U16, &mut input), Ok(Value::U16(expected))),
            _ => panic!("not a named field"),
        }
    }
}

#[test]
fn decode_signed_values() {
    let cases = [
        (Kind::I8, LittleEndian, vec![0xff], Value::I8(-1)),
        (Kind::I16, BigEndian, vec![0xff, 0xfe], Value::I16(-2)),
        (Kind::I32, LittleEndian, vec![0x00, 0x00, 0x00, 0x80], Value::I32(i32::MIN)),
        (Kind::U32, LittleEndian, vec![0x78, 0x56, 0x34, 0x12], Value::U32(0x12345678)),
        (Kind::U8, BigEndian, vec![0xff], Value::U8(255)),
    ];
    for (kind, endian, data, expected) in cases {
        let field = named("v").is(kind, endian).build();
        let mut input = Reader::new(data);
        match field {
            Field::Named(n) => assert_eq!(n.decode(kind, &mut input), Ok(expected)),
            _ => panic!("not a named field"),
        }
    }
}

#[test]
fn type_sets_width() {
    let field = named("v").is(Kind::U32, LittleEndian).build();
    assert_eq!(field.bits(), 32);
    let field = named("v").bits(3).build();
    assert_eq!(field.bits(), 3);
}

#[test]
fn builders_keep_attributes() {
    let c = Field::constant().bytes(2).value(vec![0xde, 0xad]).build();
    match &c {
        Field::Constant(k) => {
            assert_eq!(k.bits(), 16);
            assert_eq!(k.value(), &[0xde, 0xad][..]);
        }
        _ => panic!("not a constant field"),
    }
    let g = Field::garbage().build();
    assert_eq!(g.bits(), 0);
    let n = named("flags").bits(3).binary().build();
    match &n {
        Field::Named(k) => {
            assert_eq!(k.name(), "flags");
            assert!(k.binary());
            assert_eq!(k.kind(), None);
            assert_eq!(k.style(), None);
        }
        _ => panic!("not a named field"),
    }
}

#[test]
fn definition_keeps_order() {
    let def = Definition::new()
        .field(named("a").bits(4).build())
        .field(Field::padding().bits(4).build())
        .field(Field::constant().bits(8).build());
    let fields = def.fields();
    assert_eq!(fields.len(), 3);
    assert!(matches!(fields[0], Field::Named(_)));
    assert!(matches!(fields[1], Field::Padding(_)));
    assert!(matches!(fields[2], Field::Constant(_)));
}

#[test]
fn constant_matches_only_its_pattern() {
    let c = Field::constant().bytes(2).value(vec![0xde, 0xad]).build();
    match c {
        Field::Constant(k) => {
            assert!(k.matches(&[0xde, 0xad]));
            assert!(!k.matches(&[0xde, 0xaf]));
            assert!(!k.matches(&[0xde]));
        }
        _ => panic!("not a constant field"),
    }
}
