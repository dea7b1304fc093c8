use binread::directive::{EnumErrorHandling, FieldDirectives, Magic, TypeDirectives};
use binread::endian::Endian;
use binread::error::Error;
use binread::io::{IntType, Reader, SeekFrom};
use binread::options::ReadOptions;
use binread::reader::read_value;
use binread::schema::{
    EnumDef, Schema, SchemaError, Strategy, StructDef, TypeDef, VariantDef,
};
use binread::value::Value;

fn field(name: &str, ty: usize) -> FieldDirectives {
    FieldDirectives::new(name.to_string(), ty)
}

fn number(schema: &mut Schema, kind: IntType) -> usize {
    schema.add(TypeDef::Int(kind)).unwrap()
}

fn magic(ty: IntType, value: i128) -> Option<Magic> {
    Some(Magic { ty, value, text: format!("{}", value) })
}

fn variant(name: &str, attrs: TypeDirectives, fields: Vec<FieldDirectives>) -> VariantDef {
    VariantDef { name: name.to_string(), attrs, fields, discriminant: 0 }
}

fn unit(name: &str, discriminant: i128, magic_value: Option<Magic>) -> VariantDef {
    let mut attrs = TypeDirectives::new();
    attrs.magic = magic_value;
    VariantDef { name: name.to_string(), attrs, fields: vec![], discriminant }
}

fn enumeration(name: &str, attrs: TypeDirectives, variants: Vec<VariantDef>) -> EnumDef {
    EnumDef { name: name.to_string(), attrs, variants }
}

fn read_at(schema: &Schema, ty: usize, bytes: &[u8], start: u64) -> (Result<Value, Error>, u64) {
    let mut reader = Reader::new(bytes.to_vec());
    reader.source.seek(SeekFrom::Start(start)).unwrap();
    let r = read_value(schema, &mut reader, ty, &ReadOptions::new(Endian::Big), &vec![]);
    (r, reader.source.pos())
}

fn ints(values: &[i128]) -> Vec<Value> {
    values.iter().map(|v| Value::Int(*v)).collect()
}

fn two_variants(schema: &mut Schema, mode: EnumErrorHandling) -> usize {
    let byte = number(schema, IntType::U8);
    let mut a = TypeDirectives::new();
    a.magic = magic(IntType::U32, 0xdead_beef);
    let mut attrs = TypeDirectives::new();
    attrs.return_error_mode = mode;
    schema
        .add(TypeDef::Enum(enumeration(
            "Choice",
            attrs,
            vec![
                variant("A", a, vec![field("x", byte)]),
                variant("B", TypeDirectives::new(), vec![field("y", byte)]),
            ],
        )))
        .unwrap()
}

#[test]
fn unit_enum_is_found_by_its_magic() {
    let mut schema = Schema::new();
    let def = enumeration(
        "Kind",
        TypeDirectives::new(),
        vec![unit("First", 0, magic(IntType::U8, 1)), unit("Second", 1, magic(IntType::U8, 2))],
    );
    assert_eq!(def.strategy(), Ok(Strategy::UniformMagic(IntType::U8)));
    let ty = schema.add(TypeDef::Enum(def)).unwrap();

    let (r, pos) = read_at(&schema, ty, &[0x02], 0);
    assert_eq!(r, Ok(Value::Variant { ty, index: 1, fields: vec![] }));
    assert_eq!(pos, 1);

    let (r, pos) = read_at(&schema, ty, &[0x01], 0);
    assert_eq!(r, Ok(Value::Variant { ty, index: 0, fields: vec![] }));
    assert_eq!(pos, 1);

    let (r, pos) = read_at(&schema, ty, &[0x05], 0);
    assert_eq!(r, Err(Error::NoVariantMatch { pos: 0 }));
    assert_eq!(pos, 1);

    let (r, _) = read_at(&schema, ty, &[0x00, 0x00, 0x05], 2);
    assert_eq!(r, Err(Error::NoVariantMatch { pos: 2 }));

    let (r, pos) = read_at(&schema, ty, &[], 0);
    assert_eq!(r, Err(Error::IoFailure { pos: 0 }));
    assert_eq!(pos, 0);
}

#[test]
fn unit_enum_is_found_by_its_discriminant() {
    let mut schema = Schema::new();
    let mut attrs = TypeDirectives::new();
    attrs.repr = Some(IntType::U16);
    attrs.endian = Endian::Little;
    let def = enumeration(
        "Level",
        attrs,
        vec![
            unit("Low", 10, magic(IntType::U8, 1)),
            unit("High", 20, None),
            unit("AlsoHigh", 20, None),
            unit("Top", 0x0102, None),
        ],
    );
    assert_eq!(def.strategy(), Ok(Strategy::Discriminant(IntType::U16)));
    let ty = schema.add(TypeDef::Enum(def)).unwrap();

    let (r, pos) = read_at(&schema, ty, &[20, 0], 0);
    assert_eq!(r, Ok(Value::Variant { ty, index: 1, fields: vec![] }));
    assert_eq!(pos, 2);

    let (r, _) = read_at(&schema, ty, &[0x02, 0x01], 0);
    assert_eq!(r, Ok(Value::Variant { ty, index: 3, fields: vec![] }));

    let (r, pos) = read_at(&schema, ty, &[9, 0, 1], 1);
    assert_eq!(r, Err(Error::NoVariantMatch { pos: 1 }));
    assert_eq!(pos, 3);
}

#[test]
fn a_failed_variant_gives_way_to_the_next() {
    let mut schema = Schema::new();
    let ty = two_variants(&mut schema, EnumErrorHandling::Default);
    match schema.get(ty) {
        Some(TypeDef::Enum(def)) => assert_eq!(def.strategy(), Ok(Strategy::Backtracking)),
        other => panic!("not an enum: {:?}", other),
    }
    assert_eq!(schema.get(ty + 1), None);

    // A reads four bytes of a magic that is not there; B then begins where A began.
    let (r, pos) = read_at(&schema, ty, &[0, 7, 0xde, 0xad, 0xbe, 0xee], 1);
    assert_eq!(r, Ok(Value::Variant { ty, index: 1, fields: ints(&[7]) }));
    assert_eq!(pos, 2);

    let (r, pos) = read_at(&schema, ty, &[0xde, 0xad, 0xbe, 0xef, 9], 0);
    assert_eq!(r, Ok(Value::Variant { ty, index: 0, fields: ints(&[9]) }));
    assert_eq!(pos, 5);
}

#[test]
fn the_first_variant_that_matches_is_chosen() {
    let mut schema = Schema::new();
    let byte = number(&mut schema, IntType::U8);
    let half = number(&mut schema, IntType::U16);
    let ty = schema
        .add(TypeDef::Enum(enumeration(
            "Greedy",
            TypeDirectives::new(),
            vec![
                variant("Wide", TypeDirectives::new(), vec![field("w", half)]),
                variant("Narrow", TypeDirectives::new(), vec![field("n", byte)]),
            ],
        )))
        .unwrap();

    let (r, pos) = read_at(&schema, ty, &[1, 2], 0);
    assert_eq!(r, Ok(Value::Variant { ty, index: 0, fields: ints(&[0x0102]) }));
    assert_eq!(pos, 2);
    let (again, _) = read_at(&schema, ty, &[1, 2], 0);
    assert_eq!(r, again);

    let (r, pos) = read_at(&schema, ty, &[1, 2], 1);
    assert_eq!(r, Ok(Value::Variant { ty, index: 1, fields: ints(&[2]) }));
    assert_eq!(pos, 2);
}

#[test]
fn all_errors_are_collected_in_order() {
    let mut schema = Schema::new();
    let ty = two_variants(&mut schema, EnumErrorHandling::ReturnAllErrors);

    let (r, pos) = read_at(&schema, ty, &[1, 2, 3], 3);
    assert_eq!(
        r,
        Err(Error::EnumErrors {
            pos: 3,
            variant_errors: vec![
                ("A".to_string(), Error::IoFailure { pos: 3 }),
                ("B".to_string(), Error::IoFailure { pos: 3 }),
            ],
        })
    );
    assert_eq!(pos, 3);

    let mut schema = Schema::new();
    let byte = number(&mut schema, IntType::U8);
    let mut a = TypeDirectives::new();
    a.magic = magic(IntType::U16, 0x0102);
    let mut b = TypeDirectives::new();
    b.magic = magic(IntType::U8, 9);
    let ty = schema
        .add(TypeDef::Enum(enumeration(
            "Tagged",
            TypeDirectives::new(),
            vec![
                variant("A", a, vec![field("x", byte), field("y", byte)]),
                variant("B", b, vec![field("z", byte)]),
            ],
        )))
        .unwrap();
    let (r, pos) = read_at(&schema, ty, &[0, 1, 2, 3], 1);
    assert_eq!(
        r,
        Err(Error::EnumErrors {
            pos: 1,
            variant_errors: vec![
                ("A".to_string(), Error::IoFailure { pos: 4 }),
                (
                    "B".to_string(),
                    Error::AssertionFailure { pos: 1, text: "9".to_string(), message: None }
                ),
            ],
        })
    );
    assert_eq!(pos, 1);
}

#[test]
fn a_terminal_enum_stops_at_the_first_failure() {
    let mut schema = Schema::new();
    let ty = two_variants(&mut schema, EnumErrorHandling::ReturnUnexpectedError);

    let (r, pos) = read_at(&schema, ty, &[0, 7, 0, 0, 0, 0], 1);
    assert_eq!(r, Err(Error::NoVariantMatch { pos: 1 }));
    assert_eq!(pos, 1);

    let (r, pos) = read_at(&schema, ty, &[0xde, 0xad, 0xbe, 0xef, 9], 0);
    assert_eq!(r, Ok(Value::Variant { ty, index: 0, fields: ints(&[9]) }));
    assert_eq!(pos, 5);
}

#[test]
fn a_variant_adds_its_directives_to_those_of_the_enum() {
    let mut schema = Schema::new();
    let half = number(&mut schema, IntType::U16);
    let mut top = TypeDirectives::new();
    top.endian = Endian::Little;
    top.magic = magic(IntType::U8, 7);
    let mut own = TypeDirectives::new();
    own.endian = Endian::Big;
    own.magic = magic(IntType::U8, 8);
    let ty = schema
        .add(TypeDef::Enum(enumeration(
            "Merged",
            top,
            vec![
                variant("Own", own, vec![field("v", half)]),
                variant("Inherited", TypeDirectives::new(), vec![field("v", half)]),
            ],
        )))
        .unwrap();

    let (r, _) = read_at(&schema, ty, &[8, 0x12, 0x34], 0);
    assert_eq!(r, Ok(Value::Variant { ty, index: 0, fields: ints(&[0x1234]) }));
    let (r, _) = read_at(&schema, ty, &[7, 0x12, 0x34], 0);
    assert_eq!(r, Ok(Value::Variant { ty, index: 1, fields: ints(&[0x3412]) }));
}

#[test]
fn an_enum_inside_a_struct_leaves_the_cursor_for_the_next_field() {
    let mut schema = Schema::new();
    let byte = number(&mut schema, IntType::U8);
    let choice = two_variants(&mut schema, EnumErrorHandling::Default);
    let ty = schema
        .add(TypeDef::Struct(StructDef {
            name: "Holder".to_string(),
            attrs: TypeDirectives::new(),
            fields: vec![field("choice", choice), field("next", byte)],
        }))
        .unwrap();

    let (r, pos) = read_at(&schema, ty, &[5, 6], 0);
    assert_eq!(
        r,
        Ok(Value::Record {
            ty,
            fields: vec![Value::Variant { ty: choice, index: 1, fields: ints(&[5]) }, Value::Int(6)],
        })
    );
    assert_eq!(pos, 2);
}

#[test]
fn the_strategy_follows_from_the_variants() {
    let with_data = |fields: Vec<FieldDirectives>| variant("Data", TypeDirectives::new(), fields);

    let none = enumeration("Empty", TypeDirectives::new(), vec![]);
    assert_eq!(none.strategy(), Err(SchemaError::NoVariants));

    let bare = enumeration(
        "Bare",
        TypeDirectives::new(),
        vec![unit("A", 0, None), unit("B", 1, None)],
    );
    assert_eq!(bare.strategy(), Err(SchemaError::NoDispatch));

    let mut attrs = TypeDirectives::new();
    attrs.repr = Some(IntType::U8);
    let stored = enumeration(
        "Stored",
        attrs,
        vec![unit("A", 0, magic(IntType::U8, 1)), unit("B", 1, magic(IntType::U8, 2))],
    );
    assert_eq!(stored.strategy(), Ok(Strategy::Discriminant(IntType::U8)));

    let mixed_types = enumeration(
        "Mixed",
        TypeDirectives::new(),
        vec![unit("A", 0, magic(IntType::U8, 1)), unit("B", 1, magic(IntType::U16, 2))],
    );
    assert_eq!(mixed_types.strategy(), Ok(Strategy::Backtracking));

    let one_without = enumeration(
        "Partly",
        TypeDirectives::new(),
        vec![unit("A", 0, magic(IntType::U8, 1)), unit("B", 1, None)],
    );
    assert_eq!(one_without.strategy(), Ok(Strategy::Backtracking));

    let mut conditional = unit("B", 1, magic(IntType::U8, 2));
    conditional.attrs.pre_assert = vec![binread::directive::Assert {
        cond: binread::expr::Expr::Arg(0),
        text: "flag".to_string(),
        message: None,
    }];
    let with_condition = enumeration(
        "Conditional",
        TypeDirectives::new(),
        vec![unit("A", 0, magic(IntType::U8, 1)), conditional],
    );
    assert_eq!(with_condition.strategy(), Ok(Strategy::Backtracking));

    let mut attrs = TypeDirectives::new();
    attrs.repr = Some(IntType::I8);
    let data_with_repr = enumeration(
        "Stored",
        attrs,
        vec![unit("A", 0, None), with_data(vec![field("x", 0)])],
    );
    assert_eq!(data_with_repr.strategy(), Ok(Strategy::Backtracking));
}

#[test]
fn variants_without_fields_and_without_a_common_magic_are_tried_in_turn() {
    let mut schema = Schema::new();
    let ty = schema
        .add(TypeDef::Enum(enumeration(
            "Partly",
            TypeDirectives::new(),
            vec![unit("Marked", 0, magic(IntType::U8, 1)), unit("Plain", 1, None)],
        )))
        .unwrap();

    let (r, pos) = read_at(&schema, ty, &[1], 0);
    assert_eq!(r, Ok(Value::Variant { ty, index: 0, fields: vec![] }));
    assert_eq!(pos, 1);
    let (r, pos) = read_at(&schema, ty, &[2], 0);
    assert_eq!(r, Ok(Value::Variant { ty, index: 1, fields: vec![] }));
    assert_eq!(pos, 0);
}

#[test]
fn the_mapping_of_an_enum_works_on_the_variant_that_was_read() {
    let mut schema = Schema::new();
    let byte = number(&mut schema, IntType::U8);
    let mut a = TypeDirectives::new();
    a.magic = magic(IntType::U8, 1);
    let mut b = TypeDirectives::new();
    b.magic = magic(IntType::U8, 2);
    let mut attrs = TypeDirectives::new();
    attrs.map = binread::directive::Mapping::Try(binread::directive::TryMap {
        value: binread::expr::Expr::Field(0),
        valid: binread::expr::Expr::Field(0),
        cause: "zero".to_string(),
    });
    let ty = schema
        .add(TypeDef::Enum(enumeration(
            "Mapped",
            attrs,
            vec![
                variant("A", a, vec![field("x", byte)]),
                variant("B", b, vec![field("y", byte), field("z", byte)]),
            ],
        )))
        .unwrap();

    let (r, pos) = read_at(&schema, ty, &[1, 7], 0);
    assert_eq!(r, Ok(Value::Int(7)));
    assert_eq!(pos, 2);
    let (r, pos) = read_at(&schema, ty, &[2, 8, 9], 0);
    assert_eq!(r, Ok(Value::Int(8)));
    assert_eq!(pos, 3);

    // the mapping rejects behind the variant that was read
    let (r, pos) = read_at(&schema, ty, &[2, 0, 9], 0);
    assert_eq!(r, Err(Error::CustomMapError { pos: 3, cause: "zero".to_string() }));
    assert_eq!(pos, 3);

    // the mapping of a variant changes nothing
    let mut own = TypeDirectives::new();
    own.map = binread::directive::Mapping::Replace(binread::expr::Expr::Const(5));
    let plain = schema
        .add(TypeDef::Enum(enumeration(
            "Plain",
            TypeDirectives::new(),
            vec![variant("Only", own, vec![field("x", byte)])],
        )))
        .unwrap();
    let (r, _) = read_at(&schema, plain, &[3], 0);
    assert_eq!(r, Ok(Value::Variant { ty: plain, index: 0, fields: ints(&[3]) }));

    // a unit enum has no fields for the mapping to see
    let mut attrs = TypeDirectives::new();
    attrs.map = binread::directive::Mapping::Replace(binread::expr::Expr::Binary(
        binread::expr::BinOp::Add,
        Box::new(binread::expr::Expr::Field(0)),
        Box::new(binread::expr::Expr::Const(40)),
    ));
    let kinds = schema
        .add(TypeDef::Enum(enumeration(
            "Kinds",
            attrs,
            vec![unit("One", 0, magic(IntType::U8, 1)), unit("Two", 1, magic(IntType::U8, 2))],
        )))
        .unwrap();
    let (r, pos) = read_at(&schema, kinds, &[2], 0);
    assert_eq!(r, Ok(Value::Int(40)));
    assert_eq!(pos, 1);
}
