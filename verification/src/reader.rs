//! Reading by a schema: types, structs and their fields.

use vstd::prelude::*;
use vstd::string::StringExecFns;
use crate::directive::{
    get_after_parse_handlers,
    split_by_immediate_deref,
    AfterParse,
    FieldAction,
    FieldDirectives,
    TypeDirectives,
};
use crate::endian::Endian;
use crate::error::{plain_result, BinResult, Error, ErrorView};
use crate::io::{IntType, Reader};
use crate::model::{
    deferred_link_spec,
    field_hooks_spec,
    follow_spec,
    link_spec,
    read_body_spec,
    read_elems_spec,
    read_field_spec,
    read_fields_spec,
    read_number_spec,
    read_struct_spec,
    read_type_spec,
    run_action_spec,
    run_deferred_spec,
};
use crate::options::{copy_name, ReadOptions};
use crate::planner::{
    apply_map,
    apply_type_map,
    check_assertions,
    check_magic,
    default_value,
    deferred_options,
    deferred_options_spec,
    field_args,
    field_args_spec,
    field_options,
    finish,
    merged_endian,
    merged_magic,
    permanent,
    start,
    type_options,
};
use crate::punctuated::read_separated;
use crate::resolver::read_enum;
use crate::schema::{field_defect, fields_defect, lemma_fields_sound, Schema, TypeDef};
use crate::skips::{skip_after, skip_before};
use crate::value::{
    lemma_list_view,
    lemma_punctuated_view,
    lemma_record_view,
    lemma_values_view_push,
    outcome_view,
    values_view,
    Value,
    ValueView,
};

verus! {

/// The model of the result of reading several values.
pub open spec fn list_outcome(r: BinResult<Vec<Value>>) -> Result<Seq<ValueView>, ErrorView> {
    match r {
        Ok(values) => Ok(values_view(values@)),
        Err(e) => Err(e@),
    }
}

/// Reads a number of type `kind`.
pub(crate) fn read_number(reader: &mut Reader, kind: IntType, endian: Endian) -> (r: BinResult<i128>)
    ensures
        final(reader).bytes() == old(reader).bytes(),
        (final(reader).state(), plain_result(r)) == read_number_spec(
            old(reader).bytes(),
            old(reader).state(),
            kind,
            endian,
        ),
{
    reader.source.read_int_in(kind, endian)
}

/// Reads a value of the type with index `ty` of the schema.
///
/// The read starts where the cursor of the reader stands and follows the
/// description of the type; [`read_type_spec`] says what comes of it. The
/// native byte order stands for that of the machine, so the outcome is the one
/// for big-endian options or the one for little-endian options; for options
/// that name an order the two are the same. A type that the schema does not
/// hold cannot be read: the read fails where the cursor stands.
pub fn read_value(
    schema: &Schema,
    reader: &mut Reader,
    ty: usize,
    options: &ReadOptions,
    args: &Vec<i128>,
) -> (r: BinResult<Value>)
    ensures
        final(reader).bytes() == old(reader).bytes(),
        (final(reader).state(), outcome_view(r)) == read_type_spec(
            schema,
            old(reader).bytes(),
            old(reader).state(),
            ty,
            options.on_host(Endian::Big),
            args@,
        ) || (final(reader).state(), outcome_view(r)) == read_type_spec(
            schema,
            old(reader).bytes(),
            old(reader).state(),
            ty,
            options.on_host(Endian::Little),
            args@,
        ),
{
    let settled = options.resolved();
    read_type(schema, reader, ty, &settled, args)
}

/// Reads a value of the type with index `ty`, with the byte order of the
/// options as it stands: the native order reads as little-endian.
pub(crate) fn read_type(
    schema: &Schema,
    reader: &mut Reader,
    ty: usize,
    options: &ReadOptions,
    args: &Vec<i128>,
) -> (r: BinResult<Value>)
    ensures
        final(reader).bytes() == old(reader).bytes(),
        (final(reader).state(), outcome_view(r)) == read_type_spec(
            schema,
            old(reader).bytes(),
            old(reader).state(),
            ty,
            *options,
            args@,
        ),
    decreases ty as int, 20int, 0int,
{
    proof {
        use_type_invariant(schema);
    }
    if ty >= schema.len() {
        return Err(Error::IoFailure { pos: reader.source.pos() });
    }
    proof {
        assert(schema.defs()[ty as int].valid_at(ty as nat));
    }
    match schema.def(ty) {
        TypeDef::Int(kind) => match read_number(reader, *kind, options.endian) {
            Ok(v) => Ok(Value::Int(v)),
            Err(e) => Err(e),
        },
        TypeDef::Array { elem, len } => match read_elems(schema, reader, *elem, options, args, *len) {
            Ok(items) => {
                proof {
                    lemma_list_view(items);
                }
                Ok(Value::List(items))
            },
            Err(e) => Err(e),
        },
        TypeDef::List { elem } => match options.count {
            None => Err(
                Error::MissingRequiredOption {
                    pos: reader.source.pos(),
                    name: String::from_str("count"),
                },
            ),
            Some(n) => {
                let inner = ReadOptions {
                    endian: options.endian,
                    count: None,
                    offset: options.offset,
                    variable_name: copy_name(&options.variable_name),
                };
                match read_elems(schema, reader, *elem, &inner, args, n) {
                    Ok(items) => {
                        proof {
                            lemma_list_view(items);
                        }
                        Ok(Value::List(items))
                    },
                    Err(e) => Err(e),
                }
            },
        },
        TypeDef::Pointer { width, .. } => match read_number(reader, *width, options.endian) {
            Ok(v) => Ok(Value::Pointer { ptr: v, target: None }),
            Err(e) => Err(e),
        },
        TypeDef::Struct(_) => read_struct(schema, reader, ty, options, args),
        TypeDef::Enum(_) => read_enum(schema, reader, ty, options, args),
    }
}

/// Reads `n` values of the type `elem`.
#[verifier::loop_isolation(false)]
pub(crate) fn read_elems(
    schema: &Schema,
    reader: &mut Reader,
    elem: usize,
    options: &ReadOptions,
    args: &Vec<i128>,
    n: usize,
) -> (r: BinResult<Vec<Value>>)
    ensures
        final(reader).bytes() == old(reader).bytes(),
        (final(reader).state(), list_outcome(r)) == read_elems_spec(
            schema,
            old(reader).bytes(),
            old(reader).state(),
            elem,
            *options,
            args@,
            n as nat,
            Seq::empty(),
        ),
    decreases elem + 1, 0int, 0int,
{
    let ghost data = reader.bytes();
    let ghost st0 = reader.state();
    let mut items: Vec<Value> = Vec::new();
    assert(values_view(items@) =~= Seq::<ValueView>::empty());
    while items.len() < n
        invariant
            reader.bytes() == data,
            items@.len() <= n,
            read_elems_spec(schema, data, st0, elem, *options, args@, n as nat, Seq::empty())
                == read_elems_spec(
                schema,
                data,
                reader.state(),
                elem,
                *options,
                args@,
                n as nat,
                values_view(items@),
            ),
        decreases n - items.len(),
    {
        match read_type(schema, reader, elem, options, args) {
            Err(e) => {
                return Err(e);
            },
            Ok(v) => {
                proof {
                    lemma_values_view_push(items@, v);
                }
                items.push(v);
            },
        }
    }
    Ok(items)
}

/// Reads the struct with index `ty`.
pub(crate) fn read_struct(
    schema: &Schema,
    reader: &mut Reader,
    ty: usize,
    options: &ReadOptions,
    args: &Vec<i128>,
) -> (r: BinResult<Value>)
    requires
        ty < schema.defs().len(),
    ensures
        final(reader).bytes() == old(reader).bytes(),
        (final(reader).state(), outcome_view(r)) == read_struct_spec(
            schema,
            old(reader).bytes(),
            old(reader).state(),
            ty,
            *options,
            args@,
        ),
    decreases ty as int, 18int, 0int,
{
    proof {
        use_type_invariant(schema);
    }
    proof {
        assert(schema.defs()[ty as int].valid_at(ty as nat));
    }
    match schema.def(ty) {
        TypeDef::Struct(def) => {
            start(reader, &def.name);
            match read_body(schema, reader, ty, &def.attrs, None, &def.fields, options, args) {
                Ok(fields) => {
                    proof {
                        lemma_record_view(ty, fields);
                    }
                    let behind: u64 = reader.source.pos();
                    match apply_type_map(&def.attrs.map, Value::Record { ty, fields }, args, behind) {
                        Ok(v) => {
                            finish(reader, None, &options.variable_name);
                            Ok(v)
                        },
                        Err(e) => {
                            finish(reader, Some(&e), &options.variable_name);
                            Err(e)
                        },
                    }
                },
                Err(e) => {
                    finish(reader, Some(&e), &options.variable_name);
                    Err(e)
                },
            }
        },
        _ => Err(Error::IoFailure { pos: reader.source.pos() }),
    }
}

/// Reads the body of a struct or variant of the type with index `ty`.
pub(crate) fn read_body(
    schema: &Schema,
    reader: &mut Reader,
    ty: usize,
    top: &TypeDirectives,
    variant: Option<&TypeDirectives>,
    fields: &Vec<FieldDirectives>,
    options: &ReadOptions,
    args: &Vec<i128>,
) -> (r: BinResult<Vec<Value>>)
    requires
        ty <= schema.defs().len(),
        fields_defect(fields@, ty as nat, 0) is None,
    ensures
        final(reader).bytes() == old(reader).bytes(),
        (final(reader).state(), list_outcome(r)) == read_body_spec(
            schema,
            old(reader).bytes(),
            old(reader).state(),
            ty,
            top,
            variant,
            fields@,
            *options,
            args@,
        ),
    decreases ty as int, 12int, 0int,
{
    let inner = type_options(options, merged_endian(top, variant));
    match check_magic(reader, merged_magic(top, variant), inner.endian) {
        Err(e) => {
            return Err(e);
        },
        Ok(()) => {},
    }
    let nothing: Vec<Value> = Vec::new();
    assert(values_view(nothing@) =~= Seq::<ValueView>::empty());
    let before: u64 = reader.source.pos();
    match check_assertions(&top.pre_assert, &nothing, 0, args, before) {
        Err(e) => {
            return Err(e);
        },
        Ok(()) => {},
    }
    match variant {
        Some(v) => match check_assertions(&v.pre_assert, &nothing, 0, args, before) {
            Err(e) => {
                return Err(e);
            },
            Ok(()) => {},
        },
        None => {},
    }
    let handlers = get_after_parse_handlers(fields);
    let (deferred, immediate) = split_by_immediate_deref(handlers, fields);
    let mut bound = match read_fields(schema, reader, ty, fields, &immediate, &inner, args) {
        Err(e) => {
            return Err(e);
        },
        Ok(bound) => bound,
    };
    let behind: u64 = reader.source.pos();
    match run_deferred(schema, reader, ty, fields, &deferred, &mut bound, &inner, args) {
        Err(e) => {
            return Err(e);
        },
        Ok(()) => {},
    }
    let _ = reader.source.seek_to(behind as i128);
    match check_assertions(&top.assert, &bound, bound.len(), args, behind) {
        Err(e) => {
            return Err(e);
        },
        Ok(()) => {},
    }
    match variant {
        Some(v) => match check_assertions(&v.assert, &bound, bound.len(), args, behind) {
            Err(e) => {
                return Err(e);
            },
            Ok(()) => {},
        },
        None => {},
    }
    Ok(permanent(fields, &bound))
}

/// Reads the fields of a struct or variant in declaration order.
#[verifier::loop_isolation(false)]
pub(crate) fn read_fields(
    schema: &Schema,
    reader: &mut Reader,
    ty: usize,
    fields: &Vec<FieldDirectives>,
    immediate: &Vec<AfterParse>,
    options: &ReadOptions,
    args: &Vec<i128>,
) -> (r: BinResult<Vec<Value>>)
    requires
        ty <= schema.defs().len(),
        fields_defect(fields@, ty as nat, 0) is None,
        immediate@.len() == fields@.len(),
        forall|k: int| 0 <= k < fields@.len() ==> immediate@[k] == fields@[k].immediate_handler(),
    ensures
        final(reader).bytes() == old(reader).bytes(),
        (final(reader).state(), list_outcome(r)) == read_fields_spec(
            schema,
            old(reader).bytes(),
            old(reader).state(),
            ty,
            fields@,
            Seq::empty(),
            *options,
            args@,
        ),
        r matches Ok(bound) ==> bound@.len() == fields@.len(),
    decreases ty as int, 10int, 0int,
{
    let ghost data = reader.bytes();
    let ghost st0 = reader.state();
    let mut bound: Vec<Value> = Vec::new();
    assert(values_view(bound@) =~= Seq::<ValueView>::empty());
    while bound.len() < fields.len()
        invariant
            reader.bytes() == data,
            bound@.len() <= fields@.len(),
            read_fields_spec(schema, data, st0, ty, fields@, Seq::empty(), *options, args@)
                == read_fields_spec(
                schema,
                data,
                reader.state(),
                ty,
                fields@,
                values_view(bound@),
                *options,
                args@,
            ),
        decreases fields@.len() - bound@.len(),
    {
        let k: usize = bound.len();
        proof {
            lemma_fields_sound(fields@, ty as nat, 0, k as int);
        }
        match read_field(schema, reader, ty, &fields[k], immediate[k], &mut bound, options, args) {
            Err(e) => {
                return Err(e);
            },
            Ok(v) => {
                proof {
                    lemma_values_view_push(bound@, v);
                }
                bound.push(v);
            },
        }
    }
    Ok(bound)
}

/// Reads one field after the fields in `bound`, which is the same after the
/// call.
pub(crate) fn read_field(
    schema: &Schema,
    reader: &mut Reader,
    ty: usize,
    f: &FieldDirectives,
    handler: AfterParse,
    bound: &mut Vec<Value>,
    options: &ReadOptions,
    args: &Vec<i128>,
) -> (r: BinResult<Value>)
    requires
        ty <= schema.defs().len(),
        field_defect(f, ty as nat) is None,
        handler == f.immediate_handler(),
    ensures
        final(bound)@ == old(bound)@,
        final(reader).bytes() == old(reader).bytes(),
        (final(reader).state(), outcome_view(r)) == read_field_spec(
            schema,
            old(reader).bytes(),
            old(reader).state(),
            ty,
            f,
            values_view(old(bound)@),
            *options,
            args@,
        ),
    decreases ty as int, 8int, 0int,
{
    let included = match &f.if_cond {
        Some(cond) => cond.test(bound, bound.len(), args),
        None => true,
    };
    if !included {
        return Ok(Value::Absent);
    }
    let saved: u64 = reader.source.pos();
    let r = field_hooks(schema, reader, ty, f, handler, bound, options, args);
    if f.restore_position {
        let _ = reader.source.seek_to(saved as i128);
    }
    match r {
        Ok(v) => if f.if_cond.is_some() {
            Ok(Value::Present(Box::new(v)))
        } else {
            Ok(v)
        },
        Err(e) => Err(e),
    }
}

/// Runs the hooks of a field that is read.
pub(crate) fn field_hooks(
    schema: &Schema,
    reader: &mut Reader,
    ty: usize,
    f: &FieldDirectives,
    handler: AfterParse,
    bound: &mut Vec<Value>,
    options: &ReadOptions,
    args: &Vec<i128>,
) -> (r: BinResult<Value>)
    requires
        ty <= schema.defs().len(),
        field_defect(f, ty as nat) is None,
        handler == f.immediate_handler(),
    ensures
        final(bound)@ == old(bound)@,
        final(reader).bytes() == old(reader).bytes(),
        (final(reader).state(), outcome_view(r)) == field_hooks_spec(
            schema,
            old(reader).bytes(),
            old(reader).state(),
            ty,
            f,
            values_view(old(bound)@),
            *options,
            args@,
        ),
    decreases ty as int, 7int, 0int,
{
    let visible: usize = bound.len();
    let inner = field_options(options, f, bound, visible, args);
    let passed = field_args(f, bound, visible, args);
    match skip_before(reader, f, bound, visible, args) {
        Err(e) => {
            return Err(e);
        },
        Ok(()) => {},
    }
    let begun: u64 = reader.source.pos();
    let read = run_action(schema, reader, ty, f, bound, &inner, &passed, args);
    let raw = if f.do_try {
        match read {
            Ok(v) => Value::Present(Box::new(v)),
            Err(_) => Value::Absent,
        }
    } else {
        match read {
            Ok(v) => v,
            Err(e) => {
                return Err(e);
            },
        }
    };
    let behind: u64 = reader.source.pos();
    let mapped = match apply_map(&f.map, raw, bound, args, behind) {
        Ok(v) => v,
        Err(e) => {
            return Err(e);
        },
    };
    proof {
        lemma_values_view_push(bound@, mapped);
    }
    bound.push(mapped);
    let asserted = check_assertions(&f.assert, bound, bound.len(), args, behind);
    let mapped = match bound.pop() {
        Some(v) => v,
        None => Value::Unit,
    };
    assert(bound@ =~= old(bound)@);
    match asserted {
        Err(e) => {
            return Err(e);
        },
        Ok(()) => {},
    }
    let linked = match link(schema, reader, ty, f.ty, handler, mapped, &inner, &passed) {
        Ok(v) => v,
        Err(e) => {
            return Err(e);
        },
    };
    match skip_after(reader, f, begun, bound, visible, args) {
        Err(e) => Err(e),
        Ok(()) => Ok(linked),
    }
}

/// Does what gives a field its value.
pub(crate) fn run_action(
    schema: &Schema,
    reader: &mut Reader,
    ty: usize,
    f: &FieldDirectives,
    bound: &Vec<Value>,
    inner: &ReadOptions,
    passed: &Vec<i128>,
    args: &Vec<i128>,
) -> (r: BinResult<Value>)
    requires
        ty <= schema.defs().len(),
        field_defect(f, ty as nat) is None,
    ensures
        final(reader).bytes() == old(reader).bytes(),
        (final(reader).state(), outcome_view(r)) == run_action_spec(
            schema,
            old(reader).bytes(),
            old(reader).state(),
            ty,
            f,
            values_view(bound@),
            *inner,
            passed@,
            args@,
        ),
    decreases ty as int, 6int, 0int,
{
    match f.action() {
        FieldAction::Ignore => Ok(Value::Unit),
        FieldAction::Default => Ok(default_value(schema.def(f.ty))),
        FieldAction::Calc => match &f.calc {
            Some(e) => Ok(Value::Int(e.eval(bound, bound.len(), args))),
            None => Ok(Value::Unit),
        },
        FieldAction::Custom(parser) => match read_separated(
            schema,
            reader,
            f.ty,
            parser.separator(),
            parser.trailing(),
            inner,
            passed,
        ) {
            Ok(list) => {
                let (data, separators) = list.into_parts();
                proof {
                    lemma_punctuated_view(data, separators);
                }
                Ok(Value::Punctuated { data, separators })
            },
            Err(e) => Err(e),
        },
        FieldAction::Normal => read_type(schema, reader, f.ty, inner, passed),
    }
}

/// Does to the value of a field of the type `field_ty` what the handler says.
pub(crate) fn link(
    schema: &Schema,
    reader: &mut Reader,
    ty: usize,
    field_ty: usize,
    handler: AfterParse,
    value: Value,
    inner: &ReadOptions,
    passed: &Vec<i128>,
) -> (r: BinResult<Value>)
    requires
        ty <= schema.defs().len(),
        field_ty < ty,
    ensures
        final(reader).bytes() == old(reader).bytes(),
        (final(reader).state(), outcome_view(r)) == link_spec(
            schema,
            old(reader).bytes(),
            old(reader).state(),
            ty,
            field_ty,
            handler,
            value@,
            *inner,
            passed@,
        ),
    decreases ty as int, 5int, 0int,
{
    match handler {
        AfterParse::Nop => Ok(value),
        AfterParse::Normal => follow(schema, reader, ty, field_ty, value, inner, passed),
        AfterParse::Try => match value {
            Value::Present(held) => match follow(
                schema,
                reader,
                ty,
                field_ty,
                *held,
                inner,
                passed,
            ) {
                Ok(v) => Ok(Value::Present(Box::new(v))),
                Err(e) => Err(e),
            },
            other => Ok(other),
        },
    }
}

/// Follows the pointer that the value is, if it is one.
pub(crate) fn follow(
    schema: &Schema,
    reader: &mut Reader,
    ty: usize,
    field_ty: usize,
    value: Value,
    inner: &ReadOptions,
    passed: &Vec<i128>,
) -> (r: BinResult<Value>)
    requires
        ty <= schema.defs().len(),
        field_ty < ty,
    ensures
        final(reader).bytes() == old(reader).bytes(),
        (final(reader).state(), outcome_view(r)) == follow_spec(
            schema,
            old(reader).bytes(),
            old(reader).state(),
            ty,
            field_ty,
            value@,
            *inner,
            passed@,
        ),
    decreases ty as int, 4int, 0int,
{
    proof {
        use_type_invariant(schema);
    }
    proof {
        assert(schema.defs()[field_ty as int].valid_at(field_ty as nat));
    }
    match schema.def(field_ty) {
        TypeDef::Pointer { target, .. } => match value {
            Value::Pointer { ptr, target: _ } => {
                let saved: u64 = reader.source.pos();
                let dest: Option<i128> = match inner.offset {
                    Some(d) => ptr.checked_add(d as i128),
                    None => Some(ptr),
                };
                match dest {
                    None => {
                        return Err(Error::IoFailure { pos: saved });
                    },
                    Some(to) => match reader.source.seek_to(to) {
                        Err(e) => {
                            return Err(e);
                        },
                        Ok(()) => {},
                    },
                }
                match read_type(schema, reader, *target, inner, passed) {
                    Err(e) => Err(e),
                    Ok(v) => {
                        let _ = reader.source.seek_to(saved as i128);
                        Ok(Value::Pointer { ptr, target: Some(Box::new(v)) })
                    },
                }
            },
            other => Ok(other),
        },
        _ => Ok(value),
    }
}

/// Does to the value of a field what was put off until the last field was
/// read.
pub(crate) fn deferred_link(
    schema: &Schema,
    reader: &mut Reader,
    ty: usize,
    f: &FieldDirectives,
    handler: AfterParse,
    value: Value,
    inner: &ReadOptions,
    passed: &Vec<i128>,
) -> (r: BinResult<Value>)
    requires
        ty <= schema.defs().len(),
        f.ty < ty,
        handler == f.deferred_handler(),
    ensures
        final(reader).bytes() == old(reader).bytes(),
        (final(reader).state(), outcome_view(r)) == deferred_link_spec(
            schema,
            old(reader).bytes(),
            old(reader).state(),
            ty,
            f,
            value@,
            *inner,
            passed@,
        ),
    decreases ty as int, 6int, 0int,
{
    if f.if_cond.is_some() {
        match value {
            Value::Present(held) => match link(
                schema,
                reader,
                ty,
                f.ty,
                handler,
                *held,
                inner,
                passed,
            ) {
                Ok(v) => Ok(Value::Present(Box::new(v))),
                Err(e) => Err(e),
            },
            other => Ok(other),
        }
    } else {
        link(schema, reader, ty, f.ty, handler, value, inner, passed)
    }
}

/// Whether the type with index `ty` is a pointer.
pub(crate) fn is_pointer(schema: &Schema, ty: usize) -> (b: bool)
    requires
        ty < schema.defs().len(),
    ensures
        b == (schema.defs()[ty as int] is Pointer),
{
    match schema.def(ty) {
        TypeDef::Pointer { .. } => true,
        _ => false,
    }
}

/// Follows, in declaration order, the pointers that were put off, and puts
/// what they point to into the values of their fields.
#[verifier::loop_isolation(false)]
pub(crate) fn run_deferred(
    schema: &Schema,
    reader: &mut Reader,
    ty: usize,
    fields: &Vec<FieldDirectives>,
    deferred: &Vec<AfterParse>,
    bound: &mut Vec<Value>,
    options: &ReadOptions,
    args: &Vec<i128>,
) -> (r: BinResult<()>)
    requires
        ty <= schema.defs().len(),
        fields_defect(fields@, ty as nat, 0) is None,
        old(bound)@.len() == fields@.len(),
        deferred@.len() == fields@.len(),
        forall|k: int| 0 <= k < fields@.len() ==> deferred@[k] == fields@[k].deferred_handler(),
    ensures
        final(reader).bytes() == old(reader).bytes(),
        final(bound)@.len() == old(bound)@.len(),
        (
            final(reader).state(),
            match r {
                Ok(_) => Ok(values_view(final(bound)@)),
                Err(e) => Err(e@),
            },
        ) == run_deferred_spec(
            schema,
            old(reader).bytes(),
            old(reader).state(),
            ty,
            fields@,
            0,
            values_view(old(bound)@),
            *options,
            args@,
        ),
    decreases ty as int, 10int, 0int,
{
    let ghost data = reader.bytes();
    let ghost st0 = reader.state();
    let ghost bound0 = values_view(bound@);
    let mut k: usize = 0;
    while k < fields.len()
        invariant
            reader.bytes() == data,
            k <= fields@.len(),
            bound@.len() == fields@.len(),
            run_deferred_spec(schema, data, st0, ty, fields@, 0, bound0, *options, args@)
                == run_deferred_spec(
                schema,
                data,
                reader.state(),
                ty,
                fields@,
                k as nat,
                values_view(bound@),
                *options,
                args@,
            ),
        decreases fields@.len() - k,
    {
        let f = &fields[k];
        proof {
            lemma_fields_sound(fields@, ty as nat, 0, k as int);
        }
        let idle = match deferred[k] {
            AfterParse::Nop => true,
            _ => !is_pointer(schema, f.ty),
        };
        if idle {
            proof {
                let held = values_view(bound@);
                crate::model::lemma_idle_link(
                    schema,
                    data,
                    reader.state(),
                    ty,
                    f,
                    held[k as int],
                    deferred_options_spec(*options, f, held, k as nat, args@),
                    field_args_spec(f, held, k as nat, args@),
                );
                assert(held.update(k as int, held[k as int]) =~= held);
            }
        } else {
            let inner = deferred_options(options, f, bound, k, args);
            let passed = field_args(f, bound, k, args);
            let value = bound[k].deep_clone();
            match deferred_link(schema, reader, ty, f, deferred[k], value, &inner, &passed) {
                Err(e) => {
                    return Err(e);
                },
                Ok(v) => {
                    assert(values_view(bound@.update(k as int, v)) =~= values_view(bound@).update(
                        k as int,
                        v@,
                    ));
                    bound.set(k, v);
                },
            }
        }
        k = k + 1;
    }
    Ok(())
}

} // verus!
