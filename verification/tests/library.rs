use binread::directive::{CustomParser, FieldDirectives, Magic, TypeDirectives};
use binread::endian::{host_endian, order_of, Endian};
use binread::error::Error;
use binread::expr::Expr;
use binread::io::{ByteSource, IntType, Reader, SeekFrom, StreamPosition};
use binread::options::ReadOptions;
use binread::punctuated::Punctuated;
use binread::reader::read_value;
use binread::schema::{Schema, StructDef, TypeDef};
use binread::value::Value;

struct Name(String);

impl std::fmt::Debug for Name {
    fn fmt(&self, f: &mut std::fmt::Formatter<'_>) -> std::fmt::Result {
        f.write_str(&self.0)
    }
}

fn name_of_record(schema: &Schema, value: &Value) -> Name {
    match value {
        Value::Record { ty, .. } => match schema.get(*ty) {
            Some(TypeDef::Struct(def)) => Name(def.name.clone()),
            _ => panic!("a record of a type that is no struct"),
        },
        _ => panic!("not a record"),
    }
}

fn magic_struct(schema: &mut Schema, name: &str, magic: i128) -> usize {
    let mut attrs = TypeDirectives::new();
    attrs.magic = Some(Magic { ty: IntType::U8, value: magic, text: format!("{}u8", magic) });
    schema
        .add(TypeDef::Struct(StructDef { name: name.to_string(), attrs, fields: vec![] }))
        .unwrap()
}

fn counted_list(schema: &mut Schema, name: &str, parser_trailing: bool) -> usize {
    let count_ty = schema.add(TypeDef::Int(IntType::U8)).unwrap();
    let one = magic_struct(schema, "One", 1);
    let two = magic_struct(schema, "Two", 2);
    let mut list = FieldDirectives::new("list".to_string(), one);
    list.count = Some(Expr::Field(0));
    list.parse_with = Some(if parser_trailing {
        CustomParser::SeparatedTrailing { separator: two }
    } else {
        CustomParser::Separated { separator: two }
    });
    schema
        .add(TypeDef::Struct(StructDef {
            name: name.to_string(),
            attrs: TypeDirectives::new(),
            fields: vec![FieldDirectives::new("count".to_string(), count_ty), list],
        }))
        .unwrap()
}

fn record_fields(value: Value) -> Vec<Value> {
    match value {
        Value::Record { fields, .. } => fields,
        other => panic!("not a record: {:?}", other),
    }
}

const TEST_DATA: &[u8] = b"\x03\x01\x02\x01\x02\x01";
const TEST_DATA_TRAILING: &[u8] = b"\x03\x01\x02\x01\x02\x01\x02";

#[test]
fn endian_to_string() {
    for &(ref endian, string) in [
        (Endian::Big, "Big"),
        (Endian::Little, "Little"),
        (Endian::Native, "Native"),
    ]
    .iter()
    {
        let converted: String = endian.into();
        assert_eq!(converted, string)
    }
}

#[test]
fn punctuated() {
    let mut schema = Schema::new();
    let test = counted_list(&mut schema, "PunctuatedTest", false);
    let mut x = Reader::new(TEST_DATA.to_vec());

    let y = read_value(&schema, &mut x, test, &ReadOptions::new(Endian::Big), &vec![]).unwrap();
    let mut y = record_fields(y);
    let list = y.pop().unwrap();
    let count = y.pop().unwrap();

    assert_eq!(count, Value::Int(3));
    let (data, separators) = match list {
        Value::Punctuated { data, separators } => (data, separators),
        other => panic!("not a punctuated list: {:?}", other),
    };
    assert_eq!(data.len(), 3);
    assert_eq!(separators.len(), 2);

    let names: Vec<Name> = data.iter().map(|v| name_of_record(&schema, v)).collect();
    let list = Punctuated::from_parts(names, separators);
    assert_eq!(list.len(), 3);

    // This behavior may be reworked later
    assert_eq!(list.items_text(), "[One, One, One]");
    assert_eq!(list.items_text(), format!("{:?}", *list));
}

#[test]
fn punctuated_trailing() {
    let mut schema = Schema::new();
    let test = counted_list(&mut schema, "PunctuatedTestTrailing", true);
    let mut x = Reader::new(TEST_DATA_TRAILING.to_vec());

    let y = read_value(&schema, &mut x, test, &ReadOptions::new(Endian::Big), &vec![]).unwrap();
    let mut y = record_fields(y);
    let list = y.pop().unwrap();
    let count = y.pop().unwrap();

    assert_eq!(count, Value::Int(3));
    let (data, separators) = match list {
        Value::Punctuated { data, separators } => (data, separators),
        other => panic!("not a punctuated list: {:?}", other),
    };
    assert_eq!(data.len(), 3);
    assert_eq!(separators.len(), 3);

    let mut y = Punctuated::from_parts(data, separators);
    assert_eq!(y.len(), 3);
    let second = y[1].deep_clone();
    y.set(0, second);
    assert_eq!(y[0], y[1]);
}

#[test]
fn missing_count_is_an_error() {
    let mut schema = Schema::new();
    let one = magic_struct(&mut schema, "One", 1);
    let two = magic_struct(&mut schema, "Two", 2);
    let mut list = FieldDirectives::new("_list".to_string(), one);
    list.parse_with = Some(CustomParser::Separated { separator: two });
    let test = schema
        .add(TypeDef::Struct(StructDef {
            name: "MissingCount".to_string(),
            attrs: TypeDirectives::new(),
            fields: vec![list],
        }))
        .unwrap();
    let mut x = Reader::new(TEST_DATA.to_vec());

    let r = read_value(&schema, &mut x, test, &ReadOptions::new(Endian::Big), &vec![]);
    assert_eq!(r, Err(Error::MissingRequiredOption { pos: 0, name: "count".to_string() }));
    assert_eq!(x.source.pos(), 0);
}

#[test]
fn missing_count_trailing_is_an_error() {
    let mut schema = Schema::new();
    let one = magic_struct(&mut schema, "One", 1);
    let two = magic_struct(&mut schema, "Two", 2);
    let mut x = Reader::new(TEST_DATA.to_vec());
    x.source.seek(SeekFrom::Start(2)).unwrap();

    let r = Punctuated::separated_trailing(
        &schema,
        &mut x,
        one,
        two,
        &ReadOptions::new(Endian::Big),
        &vec![],
    );
    assert_eq!(r.err(), Some(Error::MissingRequiredOption { pos: 2, name: "count".to_string() }));
    assert_eq!(x.source.pos(), 2);
}

#[test]
fn const_generic_test() {
    const IN: [u8; 300] = [6; 300];

    let mut schema = Schema::new();
    let byte = schema.add(TypeDef::Int(IntType::U8)).unwrap();
    let array = schema.add(TypeDef::Array { elem: byte, len: 300 }).unwrap();
    let mut reader = Reader::new(IN.to_vec());
    let out = read_value(&schema, &mut reader, array, &ReadOptions::new(Endian::Big), &vec![])
        .unwrap();

    let out: Vec<u8> = match out {
        Value::List(items) => items
            .iter()
            .map(|v| match v {
                Value::Int(n) => *n as u8,
                other => panic!("not a number: {:?}", other),
            })
            .collect(),
        other => panic!("not a list: {:?}", other),
    };
    assert_eq!(IN.to_vec(), out);
    assert_eq!(reader.source.pos(), 300);
}

#[test]
fn counted_punctuated_list_of_u16() {
    let mut schema = Schema::new();
    let u8_ty = schema.add(TypeDef::Int(IntType::U8)).unwrap();
    let u16_ty = schema.add(TypeDef::Int(IntType::U16)).unwrap();
    let mut list = FieldDirectives::new("list".to_string(), u16_ty);
    list.count = Some(Expr::Field(0));
    list.parse_with = Some(CustomParser::Separated { separator: u8_ty });
    let ty = schema
        .add(TypeDef::Struct(StructDef {
            name: "MyList".to_string(),
            attrs: TypeDirectives::new(),
            fields: vec![FieldDirectives::new("count".to_string(), u8_ty), list],
        }))
        .unwrap();
    let mut reader = Reader::new(vec![0x03, 0x00, 0x03, 0x00, 0x00, 0x02, 0x01, 0x00, 0x01]);

    let value = read_value(&schema, &mut reader, ty, &ReadOptions::new(Endian::Big), &vec![])
        .unwrap();

    assert_eq!(
        value,
        Value::Record {
            ty,
            fields: vec![
                Value::Int(3),
                Value::Punctuated {
                    data: vec![Value::Int(3), Value::Int(2), Value::Int(1)],
                    separators: vec![Value::Int(0), Value::Int(1)],
                },
            ],
        }
    );
    assert_eq!(reader.source.pos(), 9);
}

#[test]
fn separated_reads_items_between_separators() {
    let mut schema = Schema::new();
    let u8_ty = schema.add(TypeDef::Int(IntType::U8)).unwrap();
    let u16_ty = schema.add(TypeDef::Int(IntType::U16)).unwrap();
    let mut options = ReadOptions::new(Endian::Big);
    options.count = Some(3);
    let mut reader = Reader::new(vec![0x00, 0x03, 0x00, 0x00, 0x02, 0x01, 0x00, 0x01]);

    let list = Punctuated::separated(&schema, &mut reader, u16_ty, u8_ty, &options, &vec![])
        .unwrap();

    assert_eq!(*list, vec![Value::Int(3), Value::Int(2), Value::Int(1)]);
    assert_eq!(*list.data(), *list);
    assert_eq!(list.seperators, vec![Value::Int(0), Value::Int(1)]);
    assert_eq!(list.len(), 3);
    assert_eq!(list.first(), Some(&Value::Int(3)));
    let (data, separators) = list.into_parts();
    assert_eq!(data.len(), 3);
    assert_eq!(separators.len(), 2);
    assert_eq!(reader.source.pos(), 8);
}

#[test]
fn separated_with_no_item_reads_nothing() {
    let mut schema = Schema::new();
    let u8_ty = schema.add(TypeDef::Int(IntType::U8)).unwrap();
    let mut options = ReadOptions::new(Endian::Little);
    options.count = Some(0);
    let mut reader = Reader::new(vec![1, 2, 3]);

    let list = Punctuated::separated(&schema, &mut reader, u8_ty, u8_ty, &options, &vec![])
        .unwrap();
    assert_eq!(list.len(), 0);
    assert_eq!(list.seperators.len(), 0);
    assert_eq!(reader.source.pos(), 0);

    let list = Punctuated::separated_trailing(&schema, &mut reader, u8_ty, u8_ty, &options, &vec![])
        .unwrap();
    assert_eq!(list.len(), 0);
    assert_eq!(list.seperators.len(), 0);
}

#[test]
fn separated_fails_where_the_bytes_end() {
    let mut schema = Schema::new();
    let u8_ty = schema.add(TypeDef::Int(IntType::U8)).unwrap();
    let u16_ty = schema.add(TypeDef::Int(IntType::U16)).unwrap();
    let mut options = ReadOptions::new(Endian::Big);
    options.count = Some(2);
    let mut reader = Reader::new(vec![0x00, 0x03, 0x09, 0x01]);

    let r = Punctuated::separated(&schema, &mut reader, u16_ty, u8_ty, &options, &vec![]);
    assert_eq!(r.err(), Some(Error::IoFailure { pos: 3 }));
}

#[test]
fn numbers_follow_the_byte_order() {
    let bytes = vec![0x12, 0x34, 0x56, 0x78, 0x9a, 0xbc, 0xde, 0xf0];
    let mut source = ByteSource::new(bytes.clone());
    assert_eq!(source.read_int(IntType::U16, Endian::Big), Ok(0x1234));
    assert_eq!(source.read_int(IntType::U16, Endian::Little), Ok(0x7856));
    assert_eq!(source.pos(), 4);
    assert_eq!(source.read_int(IntType::I8, Endian::Big), Ok(0x9a - 0x100));
    source.seek(SeekFrom::Start(0)).unwrap();
    assert_eq!(source.read_int(IntType::U64, Endian::Big), Ok(0x1234_5678_9abc_def0));
    source.seek(SeekFrom::Start(0)).unwrap();
    assert_eq!(source.read_int(IntType::U64, Endian::Little), Ok(0xf0de_bc9a_7856_3412));
    source.seek(SeekFrom::Start(4)).unwrap();
    assert_eq!(source.read_int(IntType::I32, Endian::Big), Ok(0x9abc_def0 - 0x1_0000_0000));
    source.seek(SeekFrom::Start(4)).unwrap();
    assert_eq!(source.read_int(IntType::I16, Endian::Little), Ok(0xbc9a - 0x1_0000));
    source.seek(SeekFrom::Start(7)).unwrap();
    assert_eq!(source.read_int(IntType::U16, Endian::Big), Err(Error::IoFailure { pos: 7 }));
    assert_eq!(source.pos(), 7);
}

#[test]
fn native_order_is_the_order_of_the_machine() {
    let little = u16::from_ne_bytes([1, 0]) == 1;
    assert_eq!(host_endian(), if little { Endian::Little } else { Endian::Big });
    assert_eq!(Endian::Native.resolved(), host_endian());
    assert_eq!(order_of([1, 0]), Endian::Little);
    assert_eq!(order_of([0, 1]), Endian::Big);
    assert_eq!(order_of(1u16.to_ne_bytes()), host_endian());
    assert_eq!(Endian::Big.resolved(), Endian::Big);

    let mut source = ByteSource::new(vec![0x01, 0x02]);
    let expected = u16::from_ne_bytes([0x01, 0x02]) as i128;
    assert_eq!(source.read_int(IntType::U16, Endian::Native), Ok(expected));
    assert_eq!(Endian::default(), Endian::Native);
}

#[test]
fn the_cursor_moves_freely() {
    let mut source = ByteSource::new(vec![0; 10]);
    assert_eq!(source.seek(SeekFrom::Start(4)), Ok(4));
    assert_eq!(source.seek(SeekFrom::Current(-3)), Ok(1));
    assert_eq!(source.seek(SeekFrom::End(-2)), Ok(8));
    assert_eq!(source.seek(SeekFrom::End(5)), Ok(15));
    assert_eq!(source.read_exact(1), Err(Error::IoFailure { pos: 15 }));
    assert_eq!(source.read_exact(0), Ok(vec![]));
    assert_eq!(source.seek(SeekFrom::Current(-16)), Err(Error::IoFailure { pos: 15 }));
    assert_eq!(source.stream_pos(), Ok(15));
    assert_eq!(source.seek(SeekFrom::Start(8)), Ok(8));
    assert_eq!(source.read_exact(2), Ok(vec![0, 0]));
    assert_eq!(source.len(), 10);
}
