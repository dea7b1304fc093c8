use binread::directive::{
    get_after_parse_handlers, split_by_immediate_deref, AfterParse, Assert, CondEndian,
    CustomParser, EnumErrorHandling, FieldAction, FieldDirectives, Magic, Mapping, TypeDirectives,
};
use binread::endian::Endian;
use binread::error::Error;
use binread::expr::{BinOp, Expr};
use binread::io::{IntType, Reader, StreamPosition};
use binread::options::ReadOptions;
use binread::reader::read_value;
use binread::schema::{EnumDef, Schema, SchemaError, StructDef, TypeDef, VariantDef};
use binread::trace::TraceEvent;
use binread::value::Value;

fn field(name: &str, ty: usize) -> FieldDirectives {
    FieldDirectives::new(name.to_string(), ty)
}

fn record(name: &str, fields: Vec<FieldDirectives>) -> TypeDef {
    TypeDef::Struct(StructDef { name: name.to_string(), attrs: TypeDirectives::new(), fields })
}

fn events(reader: &Reader) -> Vec<String> {
    (0..reader.trace.len())
        .map(|i| match reader.trace.event(i) {
            Some(TraceEvent::StartType(name)) => format!("start {}", name),
            Some(TraceEvent::EndType(Some(name))) => format!("end {}", name),
            Some(TraceEvent::EndType(None)) => "end".to_string(),
            Some(TraceEvent::Comment(text)) => format!("comment {}", text),
            None => panic!("no event {}", i),
        })
        .collect()
}

#[test]
fn a_type_refers_only_to_types_before_it() {
    let mut schema = Schema::new();
    assert_eq!(schema.len(), 0);
    assert_eq!(schema.add(TypeDef::Array { elem: 0, len: 2 }), Err(SchemaError::UnknownType));
    assert_eq!(schema.add(TypeDef::List { elem: 0 }), Err(SchemaError::UnknownType));
    assert_eq!(
        schema.add(TypeDef::Pointer { width: IntType::U8, target: 0 }),
        Err(SchemaError::UnknownType)
    );
    assert_eq!(schema.add(record("Early", vec![field("x", 0)])), Err(SchemaError::UnknownType));
    assert_eq!(schema.len(), 0);

    assert_eq!(schema.add(TypeDef::Int(IntType::U8)), Ok(0));
    assert_eq!(schema.add(TypeDef::Array { elem: 0, len: 2 }), Ok(1));
    assert_eq!(schema.add(TypeDef::List { elem: 1 }), Ok(2));
    assert_eq!(schema.add(TypeDef::Pointer { width: IntType::U8, target: 2 }), Ok(3));
    assert_eq!(schema.add(record("Late", vec![field("x", 3)])), Ok(4));
    assert_eq!(schema.add(record("Itself", vec![field("x", 5)])), Err(SchemaError::UnknownType));
    assert_eq!(schema.len(), 5);
    assert_eq!(schema.get(1), Some(&TypeDef::Array { elem: 0, len: 2 }));
    assert_eq!(schema.get(5), None);

    let mut with_parser = field("list", 0);
    with_parser.parse_with = Some(CustomParser::Separated { separator: 5 });
    assert_eq!(schema.add(record("Parser", vec![with_parser])), Err(SchemaError::UnknownType));
}

#[test]
fn a_field_has_one_source_for_its_value() {
    let mut schema = Schema::new();
    let byte = schema.add(TypeDef::Int(IntType::U8)).unwrap();

    let mut both = field("both", byte);
    both.ignore = true;
    both.calc = Some(Expr::Const(1));
    assert!(!both.consistent());
    assert_eq!(both.action(), FieldAction::Ignore);
    assert_eq!(
        schema.add(record("Both", vec![field("fine", byte), both])),
        Err(SchemaError::ConflictingDirectives)
    );

    let mut parsed = field("parsed", byte);
    parsed.parse_with = Some(CustomParser::SeparatedTrailing { separator: byte });
    assert!(parsed.consistent());
    assert_eq!(
        parsed.action(),
        FieldAction::Custom(CustomParser::SeparatedTrailing { separator: byte })
    );
    parsed.default = true;
    assert!(!parsed.consistent());
    assert_eq!(
        parsed.action(),
        FieldAction::Custom(CustomParser::SeparatedTrailing { separator: byte })
    );

    let mut defaulted = field("defaulted", byte);
    defaulted.default = true;
    assert_eq!(defaulted.action(), FieldAction::Default);
    defaulted.calc = Some(Expr::Const(1));
    assert_eq!(defaulted.action(), FieldAction::Default);
    assert!(!defaulted.consistent());

    let mut computed = field("computed", byte);
    computed.calc = Some(Expr::Const(1));
    assert_eq!(computed.action(), FieldAction::Calc);
    assert!(computed.consistent());
    assert_eq!(field("plain", byte).action(), FieldAction::Normal);
    assert!(field("plain", byte).consistent());

    // the first defect in declaration order is the one reported
    let mut unknown = field("unknown", 9);
    unknown.ignore = true;
    unknown.default = true;
    let mut conflicting = field("conflicting", byte);
    conflicting.ignore = true;
    conflicting.default = true;
    assert_eq!(
        schema.add(record("Two", vec![conflicting, unknown])),
        Err(SchemaError::ConflictingDirectives)
    );
    assert_eq!(schema.len(), 1);
}

#[test]
fn an_enum_needs_variants_that_leave_the_error_handling_alone() {
    let mut schema = Schema::new();
    let byte = schema.add(TypeDef::Int(IntType::U8)).unwrap();
    let enumeration = |variants: Vec<VariantDef>| {
        TypeDef::Enum(EnumDef { name: "E".to_string(), attrs: TypeDirectives::new(), variants })
    };
    let variant = |attrs: TypeDirectives, fields: Vec<FieldDirectives>| VariantDef {
        name: "V".to_string(),
        attrs,
        fields,
        discriminant: 0,
    };

    assert_eq!(schema.add(enumeration(vec![])), Err(SchemaError::NoVariants));

    let mut mode = TypeDirectives::new();
    mode.return_error_mode = EnumErrorHandling::ReturnAllErrors;
    assert!(!mode.fits_variant());
    assert_eq!(
        schema.add(enumeration(vec![
            variant(TypeDirectives::new(), vec![field("x", byte)]),
            variant(mode, vec![]),
        ])),
        Err(SchemaError::VariantDirective)
    );

    let mut import = TypeDirectives::new();
    import.import = Some(1);
    assert!(!import.fits_variant());
    assert_eq!(
        schema.add(enumeration(vec![variant(import, vec![field("x", 7)])])),
        Err(SchemaError::VariantDirective)
    );

    assert_eq!(
        schema.add(enumeration(vec![variant(TypeDirectives::new(), vec![field("x", 7)])])),
        Err(SchemaError::UnknownType)
    );
    assert!(TypeDirectives::new().fits_variant());
    assert_eq!(
        schema.add(enumeration(vec![variant(TypeDirectives::new(), vec![field("x", byte)])])),
        Ok(1)
    );
}

#[test]
fn variants_without_fields_need_something_to_tell_them_apart() {
    let mut schema = Schema::new();
    let byte = schema.add(TypeDef::Int(IntType::U8)).unwrap();
    let unit = |name: &str, magic: Option<i128>| {
        let mut attrs = TypeDirectives::new();
        attrs.magic = magic.map(|value| Magic { ty: IntType::U8, value, text: value.to_string() });
        VariantDef { name: name.to_string(), attrs, fields: vec![], discriminant: 0 }
    };
    let enumeration = |attrs: TypeDirectives, variants: Vec<VariantDef>| {
        TypeDef::Enum(EnumDef { name: "E".to_string(), attrs, variants })
    };

    // neither stored as an integer nor marked by a magic
    assert_eq!(
        schema.add(enumeration(TypeDirectives::new(), vec![unit("A", None), unit("B", None)])),
        Err(SchemaError::NoDispatch)
    );
    assert_eq!(
        schema.add(enumeration(TypeDirectives::new(), vec![unit("Only", None)])),
        Err(SchemaError::NoDispatch)
    );
    // a magic of the enum itself tells no variant from another
    let mut marked = TypeDirectives::new();
    marked.magic = Some(Magic { ty: IntType::U8, value: 1, text: "1u8".to_string() });
    assert_eq!(
        schema.add(enumeration(marked, vec![unit("A", None), unit("B", None)])),
        Err(SchemaError::NoDispatch)
    );
    // a condition on the arguments alone is no magic
    let mut conditional = unit("A", None);
    conditional.attrs.pre_assert =
        vec![Assert { cond: Expr::Arg(0), text: "flag".to_string(), message: None }];
    assert_eq!(
        schema.add(enumeration(TypeDirectives::new(), vec![conditional, unit("B", None)])),
        Err(SchemaError::NoDispatch)
    );
    assert_eq!(schema.len(), 1);

    let mut stored = TypeDirectives::new();
    stored.repr = Some(IntType::U8);
    assert_eq!(schema.add(enumeration(stored, vec![unit("A", None), unit("B", None)])), Ok(1));
    assert_eq!(
        schema.add(enumeration(TypeDirectives::new(), vec![unit("A", Some(1)), unit("B", Some(2))])),
        Ok(2)
    );
    assert_eq!(
        schema.add(enumeration(TypeDirectives::new(), vec![unit("A", Some(1)), unit("B", None)])),
        Ok(3)
    );
    let mut with_data = unit("B", None);
    with_data.fields = vec![field("x", byte)];
    assert_eq!(
        schema.add(enumeration(TypeDirectives::new(), vec![unit("A", None), with_data])),
        Ok(4)
    );
}

#[test]
fn a_condition_chooses_between_the_two_fixed_byte_orders() {
    let mut schema = Schema::new();
    let byte = schema.add(TypeDef::Int(IntType::U8)).unwrap();

    let mut native = field("native", byte);
    native.endian = CondEndian::Cond(Endian::Native, Expr::Const(1));
    assert!(!native.endian.valid());
    assert_eq!(
        schema.add(record("Native", vec![field("fine", byte), native])),
        Err(SchemaError::NativeCondition)
    );
    assert_eq!(schema.len(), 1);

    let mut native = field("native", byte);
    native.endian = CondEndian::Cond(Endian::Native, Expr::Const(1));
    let in_variant = TypeDef::Enum(EnumDef {
        name: "E".to_string(),
        attrs: TypeDirectives::new(),
        variants: vec![VariantDef {
            name: "V".to_string(),
            attrs: TypeDirectives::new(),
            fields: vec![native],
            discriminant: 0,
        }],
    });
    assert_eq!(schema.add(in_variant), Err(SchemaError::NativeCondition));

    // a field with more than one defect reports the first
    let mut both = field("both", byte);
    both.endian = CondEndian::Cond(Endian::Native, Expr::Const(1));
    both.ignore = true;
    both.default = true;
    assert_eq!(schema.add(record("Both", vec![both])), Err(SchemaError::ConflictingDirectives));

    assert!(CondEndian::Fixed(Endian::Native).valid());
    assert!(CondEndian::Fixed(Endian::Big).valid());
    assert!(CondEndian::Cond(Endian::Big, Expr::Const(0)).valid());
    assert!(CondEndian::Cond(Endian::Little, Expr::Const(0)).valid());
    let mut little = field("little", byte);
    little.endian = CondEndian::Cond(Endian::Little, Expr::Const(1));
    let mut given = field("given", byte);
    given.endian = CondEndian::Fixed(Endian::Native);
    assert_eq!(schema.add(record("Fine", vec![little, given])), Ok(1));
}

#[test]
fn handlers_go_to_one_of_two_lists() {
    let mut mapped = field("mapped", 0);
    mapped.map = Mapping::Replace(Expr::Field(0));
    let mut ignored = field("ignored", 0);
    ignored.ignore = true;
    let mut defaulted = field("defaulted", 0);
    defaulted.default = true;
    let mut computed = field("computed", 0);
    computed.calc = Some(Expr::Const(0));
    let mut parsed = field("parsed", 0);
    parsed.parse_with = Some(CustomParser::Separated { separator: 0 });
    let mut tried = field("tried", 0);
    tried.do_try = true;
    let mut now = field("now", 0);
    now.deref_now = true;
    let mut tried_now = field("tried_now", 0);
    tried_now.do_try = true;
    tried_now.postprocess_now = true;
    let fields = vec![
        field("plain", 0),
        mapped,
        ignored,
        defaulted,
        computed,
        parsed,
        tried,
        now,
        tried_now,
    ];

    let handlers = get_after_parse_handlers(&fields);
    assert_eq!(
        handlers,
        vec![
            AfterParse::Normal,
            AfterParse::Nop,
            AfterParse::Nop,
            AfterParse::Nop,
            AfterParse::Nop,
            AfterParse::Nop,
            AfterParse::Try,
            AfterParse::Normal,
            AfterParse::Try,
        ]
    );

    let (deferred, immediate) = split_by_immediate_deref(handlers, &fields);
    assert_eq!(
        deferred,
        vec![
            AfterParse::Normal,
            AfterParse::Nop,
            AfterParse::Nop,
            AfterParse::Nop,
            AfterParse::Nop,
            AfterParse::Nop,
            AfterParse::Try,
            AfterParse::Nop,
            AfterParse::Nop,
        ]
    );
    assert_eq!(
        immediate,
        vec![
            AfterParse::Nop,
            AfterParse::Nop,
            AfterParse::Nop,
            AfterParse::Nop,
            AfterParse::Nop,
            AfterParse::Nop,
            AfterParse::Nop,
            AfterParse::Normal,
            AfterParse::Try,
        ]
    );

    let (deferred, immediate) =
        split_by_immediate_deref(vec![AfterParse::Try, AfterParse::Normal], &fields);
    assert_eq!(deferred, vec![AfterParse::Try, AfterParse::Normal]);
    assert_eq!(immediate, vec![AfterParse::Nop, AfterParse::Nop]);
    let (deferred, immediate) = split_by_immediate_deref(vec![AfterParse::Try], &vec![]);
    assert_eq!(deferred, vec![]);
    assert_eq!(immediate, vec![]);
}

#[test]
fn the_trace_records_types_as_they_are_read() {
    let mut schema = Schema::new();
    let byte = schema.add(TypeDef::Int(IntType::U8)).unwrap();
    let inner = schema.add(record("Inner", vec![field("x", byte)])).unwrap();
    let mut checked = field("second", inner);
    checked.assert = vec![Assert {
        cond: Expr::Binary(BinOp::Eq, Box::new(Expr::Const(1)), Box::new(Expr::Const(1))),
        text: "1 == 1".to_string(),
        message: None,
    }];
    let outer = schema.add(record("Outer", vec![field("first", inner), checked])).unwrap();
    let mut options = ReadOptions::new(Endian::Big);
    options.variable_name = Some("root".to_string());

    let mut traced = Reader::traced(vec![1, 2]);
    let seen = read_value(&schema, &mut traced, outer, &options, &vec![]);
    assert_eq!(
        events(&traced),
        vec![
            "start Outer",
            "start Inner",
            "end first",
            "start Inner",
            "end second",
            "end root",
        ]
    );

    let mut silent = Reader::new(vec![1, 2]);
    let unseen = read_value(&schema, &mut silent, outer, &options, &vec![]);
    assert_eq!(silent.trace.len(), 0);
    assert_eq!(silent.trace.event(0), None);
    assert!(!silent.trace.records());
    assert!(traced.trace.records());
    assert_eq!(traced.trace.event(0), Some(&TraceEvent::StartType("Outer".to_string())));
    assert_eq!(seen, unseen);
    assert_eq!(traced.stream_pos(), silent.stream_pos());
    assert_eq!(
        seen,
        Ok(Value::Record {
            ty: outer,
            fields: vec![
                Value::Record { ty: inner, fields: vec![Value::Int(1)] },
                Value::Record { ty: inner, fields: vec![Value::Int(2)] },
            ],
        })
    );
}

#[test]
fn the_trace_records_failures() {
    let mut schema = Schema::new();
    let byte = schema.add(TypeDef::Int(IntType::U8)).unwrap();
    let mut attrs = TypeDirectives::new();
    attrs.magic = Some(Magic { ty: IntType::U8, value: 1, text: "1u8".to_string() });
    let inner = schema
        .add(TypeDef::Struct(StructDef {
            name: "Inner".to_string(),
            attrs,
            fields: vec![field("x", byte)],
        }))
        .unwrap();
    let outer = schema.add(record("Outer", vec![field("only", inner)])).unwrap();
    let choice = schema
        .add(TypeDef::Enum(EnumDef {
            name: "Choice".to_string(),
            attrs: TypeDirectives::new(),
            variants: vec![VariantDef {
                name: "One".to_string(),
                attrs: TypeDirectives::new(),
                fields: vec![field("inner", inner)],
                discriminant: 0,
            }],
        }))
        .unwrap();
    let options = ReadOptions::new(Endian::Big);

    let mut reader = Reader::traced(vec![2, 2]);
    let r = read_value(&schema, &mut reader, outer, &options, &vec![]);
    assert_eq!(
        r,
        Err(Error::AssertionFailure { pos: 0, text: "1u8".to_string(), message: None })
    );
    assert_eq!(
        events(&reader),
        vec![
            "start Outer",
            "start Inner",
            "comment Error: assertion failed: 1u8",
            "end only",
            "comment Error: assertion failed: 1u8",
            "end",
        ]
    );

    let mut reader = Reader::traced(vec![1]);
    let r = read_value(&schema, &mut reader, choice, &options, &vec![]);
    assert_eq!(
        r,
        Err(Error::EnumErrors {
            pos: 0,
            variant_errors: vec![("One".to_string(), Error::IoFailure { pos: 1 })],
        })
    );
    assert_eq!(
        events(&reader),
        vec![
            "start Choice",
            "start Inner",
            "comment Error: i/o failure",
            "end inner",
            "comment Error: every variant failed",
            "end",
        ]
    );
    assert_eq!(reader.source.pos(), 0);
}

#[test]
fn errors_describe_themselves() {
    let failure = Error::AssertionFailure {
        pos: 3,
        text: "a > b".to_string(),
        message: Some("a is too small".to_string()),
    };
    assert_eq!(failure.describe(), "assertion failed: a > b: a is too small");
    assert_eq!(failure.pos(), 3);
    let plain = Error::AssertionFailure { pos: 3, text: "a > b".to_string(), message: None };
    assert_eq!(plain.describe(), "assertion failed: a > b");
    assert_eq!(Error::IoFailure { pos: 1 }.describe(), "i/o failure");
    assert_eq!(Error::IoFailure { pos: 1 }.pos(), 1);
    assert_eq!(Error::NoVariantMatch { pos: 2 }.describe(), "no variant matched");
    assert_eq!(Error::NoVariantMatch { pos: 2 }.pos(), 2);
    let all = Error::EnumErrors { pos: 4, variant_errors: vec![("A".to_string(), failure)] };
    assert_eq!(all.describe(), "every variant failed");
    assert_eq!(all.pos(), 4);
    let map = Error::CustomMapError { pos: 5, cause: "odd".to_string() };
    assert_eq!(map.describe(), "mapping failed: odd");
    assert_eq!(map.pos(), 5);
    let missing = Error::MissingRequiredOption { pos: 6, name: "count".to_string() };
    assert_eq!(missing.describe(), "missing required option: count");
    assert_eq!(missing.pos(), 6);
}

#[test]
fn names_and_text_come_from_tokens() {
    let tokens: proc_macro2::TokenStream = "b > a".parse().unwrap();
    let a = Assert::from_tokens(Expr::Const(1), &tokens, Some("m".to_string()));
    assert_eq!(a.text, "b > a");
    assert_eq!(a.cond, Expr::Const(1));
    assert_eq!(a.message, Some("m".to_string()));

    let literal: proc_macro2::TokenStream = "0x1u8".parse().unwrap();
    let m = Magic::from_tokens(IntType::U8, 1, &literal);
    assert_eq!(m, Magic { ty: IntType::U8, value: 1, text: "0x1u8".to_string() });

    let ident = proc_macro2::Ident::new("count", proc_macro2::Span::call_site());
    let f = FieldDirectives::named(&ident, 4);
    assert_eq!(f, FieldDirectives::new("count".to_string(), 4));

    let s = StructDef::named(&ident, TypeDirectives::new(), vec![]);
    assert_eq!(s.name, "count");
    let v = VariantDef::named(&ident, TypeDirectives::new(), vec![], 7);
    assert_eq!(v.name, "count");
    assert_eq!(v.discriminant, 7);
    let e = EnumDef::named(&ident, TypeDirectives::new(), vec![v]);
    assert_eq!(e.name, "count");
    assert_eq!(e.variants.len(), 1);
}

#[test]
fn options_are_copied_with_their_byte_order_settled() {
    let mut options = ReadOptions::default();
    assert_eq!(options, ReadOptions::new(Endian::Native));
    options.count = Some(3);
    options.offset = Some(-4);
    options.variable_name = Some("x".to_string());
    assert_eq!(options.copy(), options);

    let settled = options.resolved();
    assert_eq!(settled.endian, binread::endian::host_endian());
    assert_eq!(settled.count, Some(3));
    assert_eq!(settled.offset, Some(-4));
    assert_eq!(settled.variable_name, Some("x".to_string()));

    let big = ReadOptions::new(Endian::Big);
    assert_eq!(big.resolved(), big);
}
