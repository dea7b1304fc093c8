//! What reading means: for every type of a schema, the value, the error and
//! the state that a read of it ends in, as mathematical functions of the bytes
//! and of the state it begins in.

use vstd::prelude::*;
use crate::directive::{AfterParse, EnumErrorHandling, FieldAction, FieldDirectives, TypeDirectives};
use crate::endian::Endian;
use crate::error::ErrorView;
use crate::io::{read_int_at, IntType, State};
use crate::options::ReadOptions;
use crate::planner::{
    apply_map_spec,
    apply_type_map_spec,
    check_assertions_spec,
    check_magic_spec,
    default_value_spec,
    deferred_options_spec,
    field_args_spec,
    field_options_spec,
    finish_spec,
    merged_endian_spec,
    merged_magic_spec,
    permanent_spec,
    start_spec,
    type_options_spec,
};
use crate::schema::{EnumDef, Schema, Strategy, TypeDef, VariantDef};
use crate::skips::{moved, skip_after_spec, skip_before_spec, Step};
use crate::value::ValueView;

verus! {

/// The outcome of a step that a well-formed schema never reaches.
pub open spec fn invalid<T>(st: State) -> Step<T> {
    (st, Err(ErrorView::IoFailure { pos: st.pos }))
}

/// The outcome of a parser that needs a count where the options hold none.
pub open spec fn missing_count<T>(st: State) -> Step<T> {
    (st, Err(ErrorView::MissingRequiredOption { pos: st.pos, name: "count"@ }))
}

/// Reading a number of type `kind` in the state `st`.
pub open spec fn read_number_spec(data: Seq<u8>, st: State, kind: IntType, endian: Endian) -> Step<
    i128,
> {
    let (pos, r) = read_int_at(data, st.pos, kind, endian);
    (
        State { pos, ..st },
        match r {
            Ok(v) => Ok(v as i128),
            Err(e) => Err(e),
        },
    )
}

/// The larger of two type indices.
pub open spec fn larger(a: usize, b: usize) -> int {
    if a >= b {
        a as int
    } else {
        b as int
    }
}

/// Reading a value of the type with index `ty`.
///
/// A number is read in the byte order of the options. An array reads its
/// elements with the options it was given; a list needs the count of the
/// options and reads that many elements, with options that hold no count. A
/// pointer is read as the number it is and not followed. Structs and enums
/// are read by [`read_struct_spec`] and [`read_enum_spec`].
pub open spec fn read_type_spec(
    schema: &Schema,
    data: Seq<u8>,
    st: State,
    ty: usize,
    options: ReadOptions,
    args: Seq<i128>,
) -> Step<ValueView>
    decreases ty as int, 20int, 0int,
{
    if ty >= schema.defs().len() {
        invalid(st)
    } else {
        match schema.defs()[ty as int] {
            TypeDef::Int(kind) => {
                let (st1, r) = read_number_spec(data, st, kind, options.endian);
                (
                    st1,
                    match r {
                        Ok(v) => Ok(ValueView::Int(v)),
                        Err(e) => Err(e),
                    },
                )
            },
            TypeDef::Array { elem, len } => if elem < ty {
                let (st1, r) = read_elems_spec(
                    schema,
                    data,
                    st,
                    elem,
                    options,
                    args,
                    len as nat,
                    Seq::empty(),
                );
                (
                    st1,
                    match r {
                        Ok(items) => Ok(ValueView::List(items)),
                        Err(e) => Err(e),
                    },
                )
            } else {
                invalid(st)
            },
            TypeDef::List { elem } => if elem < ty {
                match options.count {
                    None => missing_count(st),
                    Some(n) => {
                        let (st1, r) = read_elems_spec(
                            schema,
                            data,
                            st,
                            elem,
                            ReadOptions { count: None, ..options },
                            args,
                            n as nat,
                            Seq::empty(),
                        );
                        (
                            st1,
                            match r {
                                Ok(items) => Ok(ValueView::List(items)),
                                Err(e) => Err(e),
                            },
                        )
                    },
                }
            } else {
                invalid(st)
            },
            TypeDef::Pointer { width, .. } => {
                let (st1, r) = read_number_spec(data, st, width, options.endian);
                (
                    st1,
                    match r {
                        Ok(v) => Ok(ValueView::Pointer { ptr: v, target: None }),
                        Err(e) => Err(e),
                    },
                )
            },
            TypeDef::Struct(_) => read_struct_spec(schema, data, st, ty, options, args),
            TypeDef::Enum(_) => read_enum_spec(schema, data, st, ty, options, args),
        }
    }
}

/// Reading elements of the type `elem` until there are `n`, after `acc` have
/// been read. The first element that fails ends the read with its error.
pub open spec fn read_elems_spec(
    schema: &Schema,
    data: Seq<u8>,
    st: State,
    elem: usize,
    options: ReadOptions,
    args: Seq<i128>,
    n: nat,
    acc: Seq<ValueView>,
) -> Step<Seq<ValueView>>
    decreases elem + 1, 0int, n - acc.len(),
{
    if acc.len() >= n {
        (st, Ok(acc))
    } else {
        let (st1, r) = read_type_spec(schema, data, st, elem, options, args);
        match r {
            Err(e) => (st1, Err(e)),
            Ok(v) => read_elems_spec(schema, data, st1, elem, options, args, n, acc.push(v)),
        }
    }
}

/// Reading `n` items of the type `item`, after `items` and `separators` have
/// been read. A separator of the type `separator` is read after every item,
/// but after the last one only if `trailing` says so. Items receive the
/// arguments, separators none.
pub open spec fn separated_from(
    schema: &Schema,
    data: Seq<u8>,
    st: State,
    item: usize,
    separator: usize,
    trailing: bool,
    options: ReadOptions,
    args: Seq<i128>,
    n: nat,
    items: Seq<ValueView>,
    separators: Seq<ValueView>,
) -> Step<(Seq<ValueView>, Seq<ValueView>)>
    decreases larger(item, separator) + 1, 0int, n - items.len(),
{
    if items.len() >= n {
        (st, Ok((items, separators)))
    } else {
        let (st1, r1) = read_type_spec(schema, data, st, item, options, args);
        match r1 {
            Err(e) => (st1, Err(e)),
            Ok(v) => if trailing || items.len() + 1 != n {
                let (st2, r2) = read_type_spec(schema, data, st1, separator, options, Seq::empty());
                match r2 {
                    Err(e) => (st2, Err(e)),
                    Ok(s) => separated_from(
                        schema,
                        data,
                        st2,
                        item,
                        separator,
                        trailing,
                        options,
                        args,
                        n,
                        items.push(v),
                        separators.push(s),
                    ),
                }
            } else {
                separated_from(
                    schema,
                    data,
                    st1,
                    item,
                    separator,
                    trailing,
                    options,
                    args,
                    n,
                    items.push(v),
                    separators,
                )
            },
        }
    }
}

/// Reading a list of items with separators: as many items as the count of the
/// options says. Without a count nothing is read and the read fails where the
/// cursor stands.
pub open spec fn separated_spec(
    schema: &Schema,
    data: Seq<u8>,
    st: State,
    item: usize,
    separator: usize,
    trailing: bool,
    options: ReadOptions,
    args: Seq<i128>,
) -> Step<(Seq<ValueView>, Seq<ValueView>)>
    decreases larger(item, separator) + 1, 1int, 0int,
{
    match options.count {
        None => missing_count(st),
        Some(n) => separated_from(
            schema,
            data,
            st,
            item,
            separator,
            trailing,
            options,
            args,
            n as nat,
            Seq::empty(),
            Seq::empty(),
        ),
    }
}

/// Reading the struct with index `ty`: the trace is told that the struct
/// begins, the body is read by [`read_body_spec`], the mapping of the struct
/// is applied, and the trace is told how it ended. The value is a record of
/// the fields that are not temporary, or what the mapping makes of it; a
/// mapping that rejects fails at the position behind the struct.
pub open spec fn read_struct_spec(
    schema: &Schema,
    data: Seq<u8>,
    st: State,
    ty: usize,
    options: ReadOptions,
    args: Seq<i128>,
) -> Step<ValueView>
    decreases ty as int, 18int, 0int,
{
    if ty >= schema.defs().len() {
        invalid(st)
    } else {
        match schema.defs()[ty as int] {
            TypeDef::Struct(def) => {
                let (st1, r) = read_body_spec(
                    schema,
                    data,
                    start_spec(st, def.name@),
                    ty,
                    &def.attrs,
                    None,
                    def.fields@,
                    options,
                    args,
                );
                let out = match r {
                    Ok(fields) => apply_type_map_spec(
                        &def.attrs.map,
                        ValueView::Record { ty, fields },
                        args,
                        st1.pos,
                    ),
                    Err(e) => Err(e),
                };
                (finish_spec(st1, out, options.variable_name), out)
            },
            _ => invalid(st),
        }
    }
}

/// The assertions of a list of directives that may be missing.
pub open spec fn pre_asserts_of(attrs: Option<&TypeDirectives>) -> Seq<crate::directive::Assert> {
    match attrs {
        Some(a) => a.pre_assert@,
        None => Seq::empty(),
    }
}

/// The assertions of a list of directives that may be missing.
pub open spec fn asserts_of(attrs: Option<&TypeDirectives>) -> Seq<crate::directive::Assert> {
    match attrs {
        Some(a) => a.assert@,
        None => Seq::empty(),
    }
}

/// Reading the body of a struct or of a variant, whose directives stand beside
/// those of its enum. In this order:
///
/// 1. the byte order that the directives name replaces the one given;
/// 2. the magic is read and compared;
/// 3. the conditions on the arguments are tested, those of the type first;
/// 4. the fields are read in declaration order, each by [`read_field_spec`];
/// 5. the position behind the last field is kept, the pointers whose
///    following was put off are followed in declaration order, and the cursor
///    returns to the position kept;
/// 6. the conditions on the fields are tested, those of the type first;
/// 7. the values of the fields that are not temporary are the result.
///
/// The first step that fails ends the read with its error.
pub open spec fn read_body_spec(
    schema: &Schema,
    data: Seq<u8>,
    st: State,
    ty: usize,
    top: &TypeDirectives,
    variant: Option<&TypeDirectives>,
    fields: Seq<FieldDirectives>,
    options: ReadOptions,
    args: Seq<i128>,
) -> Step<Seq<ValueView>>
    decreases ty as int, 12int, 0int,
{
    let inner = type_options_spec(options, merged_endian_spec(top, variant));
    let (st1, r1) = check_magic_spec(data, st, merged_magic_spec(top, variant), inner.endian);
    if r1 is Err {
        (st1, Err(r1->Err_0))
    } else {
        let r2 = check_assertions_spec(top.pre_assert@, Seq::empty(), 0, args, st1.pos);
        let r3 = check_assertions_spec(pre_asserts_of(variant), Seq::empty(), 0, args, st1.pos);
        if r2 is Err {
            (st1, Err(r2->Err_0))
        } else if r3 is Err {
            (st1, Err(r3->Err_0))
        } else {
            let (st2, r4) = read_fields_spec(schema, data, st1, ty, fields, Seq::empty(), inner, args);
            match r4 {
                Err(e) => (st2, Err(e)),
                Ok(bound) => {
                    let (st3, r5) = run_deferred_spec(
                        schema,
                        data,
                        st2,
                        ty,
                        fields,
                        0,
                        bound,
                        inner,
                        args,
                    );
                    match r5 {
                        Err(e) => (st3, Err(e)),
                        Ok(linked) => {
                            let st4 = State { pos: st2.pos, ..st3 };
                            let r6 = check_assertions_spec(
                                top.assert@,
                                linked,
                                linked.len(),
                                args,
                                st4.pos,
                            );
                            let r7 = check_assertions_spec(
                                asserts_of(variant),
                                linked,
                                linked.len(),
                                args,
                                st4.pos,
                            );
                            if r6 is Err {
                                (st4, Err(r6->Err_0))
                            } else if r7 is Err {
                                (st4, Err(r7->Err_0))
                            } else {
                                (st4, Ok(permanent_spec(fields, linked, fields.len())))
                            }
                        },
                    }
                },
            }
        }
    }
}

/// Reading the fields that follow those in `bound`, in declaration order. The
/// first field that fails ends the read with its error.
pub open spec fn read_fields_spec(
    schema: &Schema,
    data: Seq<u8>,
    st: State,
    ty: usize,
    fields: Seq<FieldDirectives>,
    bound: Seq<ValueView>,
    options: ReadOptions,
    args: Seq<i128>,
) -> Step<Seq<ValueView>>
    decreases ty as int, 10int, fields.len() - bound.len(),
{
    if bound.len() >= fields.len() {
        (st, Ok(bound))
    } else {
        let (st1, r) = read_field_spec(
            schema,
            data,
            st,
            ty,
            &fields[bound.len() as int],
            bound,
            options,
            args,
        );
        match r {
            Err(e) => (st1, Err(e)),
            Ok(v) => read_fields_spec(schema, data, st1, ty, fields, bound.push(v), options, args),
        }
    }
}

/// Reading one field of the type with index `ty`, after the fields in `bound`.
///
/// The arguments and options of the field are computed from the fields read
/// before. If the field has a condition and it does not hold, the field is
/// absent and nothing else happens. Otherwise the hooks of
/// [`field_hooks_spec`] run; with `restore_position` the cursor then returns
/// to where it stood before the field, whether the hooks failed or not. The
/// value of a field with a condition is wrapped as present.
pub open spec fn read_field_spec(
    schema: &Schema,
    data: Seq<u8>,
    st: State,
    ty: usize,
    f: &FieldDirectives,
    bound: Seq<ValueView>,
    options: ReadOptions,
    args: Seq<i128>,
) -> Step<ValueView>
    decreases ty as int, 8int, 0int,
{
    if f.if_cond is Some && !f.if_cond->0.holds(bound, bound.len(), args) {
        (st, Ok(ValueView::Absent))
    } else {
        let (st1, r) = field_hooks_spec(schema, data, st, ty, f, bound, options, args);
        let st2 = if f.restore_position {
            State { pos: st.pos, ..st1 }
        } else {
            st1
        };
        (
            st2,
            match r {
                Ok(v) => Ok(
                    if f.if_cond is Some {
                        ValueView::Present(Box::new(v))
                    } else {
                        v
                    },
                ),
                Err(e) => Err(e),
            },
        )
    }
}

/// The value of a tried read: present if the read gave a value, absent if it
/// failed.
pub open spec fn tried(r: Result<ValueView, ErrorView>) -> ValueView {
    match r {
        Ok(v) => ValueView::Present(Box::new(v)),
        Err(_) => ValueView::Absent,
    }
}

/// The hooks of a field that is read, in this order:
///
/// 1. the moves before the field ([`skip_before_spec`]);
/// 2. the action that gives the value ([`run_action_spec`]); with `try`, a
///    failed action makes the value absent;
/// 3. the mapping, which fails at the position behind the value;
/// 4. the assertions of the field, which see the field itself and fail at the
///    position behind the value;
/// 5. the following of a pointer, where the field asks for it at once; a
///    pointer of any other field is followed only when the last field has been
///    read, and nothing of that is done here;
/// 6. the moves after the field ([`skip_after_spec`]), whether a pointer was
///    followed or put off.
///
/// The first hook that fails ends the field with its error.
pub open spec fn field_hooks_spec(
    schema: &Schema,
    data: Seq<u8>,
    st: State,
    ty: usize,
    f: &FieldDirectives,
    bound: Seq<ValueView>,
    options: ReadOptions,
    args: Seq<i128>,
) -> Step<ValueView>
    decreases ty as int, 7int, 0int,
{
    let visible = bound.len();
    let inner = field_options_spec(options, f, bound, visible, args);
    let passed = field_args_spec(f, bound, visible, args);
    let (st1, r1) = skip_before_spec(st, f, bound, visible, args);
    if r1 is Err {
        (st1, Err(r1->Err_0))
    } else {
        let (st2, r2) = run_action_spec(schema, data, st1, ty, f, bound, inner, passed, args);
        let r2t = if f.do_try {
            Ok(tried(r2))
        } else {
            r2
        };
        match r2t {
            Err(e) => (st2, Err(e)),
            Ok(raw) => match apply_map_spec(&f.map, raw, bound, args, st2.pos) {
                Err(e) => (st2, Err(e)),
                Ok(mapped) => {
                    let r4 = check_assertions_spec(
                        f.assert@,
                        bound.push(mapped),
                        visible + 1,
                        args,
                        st2.pos,
                    );
                    if r4 is Err {
                        (st2, Err(r4->Err_0))
                    } else {
                        let (st5, r5) = link_spec(
                            schema,
                            data,
                            st2,
                            ty,
                            f.ty,
                            f.immediate_handler(),
                            mapped,
                            inner,
                            passed,
                        );
                        match r5 {
                            Err(e) => (st5, Err(e)),
                            Ok(linked) => {
                                let (st6, r6) = skip_after_spec(
                                    st5,
                                    f,
                                    st1.pos,
                                    bound,
                                    visible,
                                    args,
                                );
                                (
                                    st6,
                                    match r6 {
                                        Err(e) => Err(e),
                                        Ok(_) => Ok(linked),
                                    },
                                )
                            },
                        }
                    }
                },
            },
        }
    }
}

/// The action that gives a field its value: nothing for an ignored field, the
/// default of the type, the value of an expression, what the named parser
/// reads, or what the parser of the type reads.
pub open spec fn run_action_spec(
    schema: &Schema,
    data: Seq<u8>,
    st: State,
    ty: usize,
    f: &FieldDirectives,
    bound: Seq<ValueView>,
    inner: ReadOptions,
    passed: Seq<i128>,
    args: Seq<i128>,
) -> Step<ValueView>
    decreases ty as int, 6int, 0int,
{
    match f.action() {
        FieldAction::Ignore => (st, Ok(ValueView::Unit)),
        FieldAction::Default => if f.ty < schema.defs().len() {
            (st, Ok(default_value_spec(&schema.defs()[f.ty as int])))
        } else {
            invalid(st)
        },
        FieldAction::Calc => (st, Ok(ValueView::Int(f.calc->0.value(bound, bound.len(), args)))),
        FieldAction::Custom(parser) => if f.ty < ty && parser.separator() < ty {
            let (st1, r) = separated_spec(
                schema,
                data,
                st,
                f.ty,
                parser.separator(),
                parser.trailing(),
                inner,
                passed,
            );
            (
                st1,
                match r {
                    Ok(parts) => Ok(ValueView::Punctuated { data: parts.0, separators: parts.1 }),
                    Err(e) => Err(e),
                },
            )
        } else {
            invalid(st)
        },
        FieldAction::Normal => if f.ty < ty {
            read_type_spec(schema, data, st, f.ty, inner, passed)
        } else {
            invalid(st)
        },
    }
}

/// What a handler does to the value of a field of the type `field_ty`:
/// nothing; or it follows the pointer; or, after a tried read, it follows the
/// pointer inside a present value and keeps an absent one.
pub open spec fn link_spec(
    schema: &Schema,
    data: Seq<u8>,
    st: State,
    ty: usize,
    field_ty: usize,
    handler: AfterParse,
    value: ValueView,
    inner: ReadOptions,
    passed: Seq<i128>,
) -> Step<ValueView>
    decreases ty as int, 5int, 0int,
{
    match handler {
        AfterParse::Nop => (st, Ok(value)),
        AfterParse::Normal => follow_spec(schema, data, st, ty, field_ty, value, inner, passed),
        AfterParse::Try => match value {
            ValueView::Present(held) => {
                let (st1, r) = follow_spec(schema, data, st, ty, field_ty, *held, inner, passed);
                (
                    st1,
                    match r {
                        Ok(v) => Ok(ValueView::Present(Box::new(v))),
                        Err(e) => Err(e),
                    },
                )
            },
            _ => (st, Ok(value)),
        },
    }
}

/// The position that a pointer points to: the number of the pointer plus the
/// offset of the options, if they hold one.
pub open spec fn pointee(ptr: i128, options: ReadOptions) -> int {
    match options.offset {
        Some(d) => ptr + d,
        None => ptr as int,
    }
}

/// Following a pointer: if the type `field_ty` is a pointer and the value is
/// one, the cursor jumps to where the pointer points, a value of the target
/// type is read there and put into the pointer, and the cursor returns to
/// where it stood. Any other value stays as it is. A jump that fails, fails
/// where the cursor stood; a read that fails leaves the cursor where the
/// failure left it.
pub open spec fn follow_spec(
    schema: &Schema,
    data: Seq<u8>,
    st: State,
    ty: usize,
    field_ty: usize,
    value: ValueView,
    inner: ReadOptions,
    passed: Seq<i128>,
) -> Step<ValueView>
    decreases ty as int, 4int, 0int,
{
    if field_ty < ty && field_ty < schema.defs().len() {
        match (schema.defs()[field_ty as int], value) {
            (TypeDef::Pointer { target, .. }, ValueView::Pointer { ptr, .. }) => if target
                < field_ty {
                let (st1, r1) = moved(st, pointee(ptr, inner));
                if r1 is Err {
                    (st1, Err(r1->Err_0))
                } else {
                    let (st2, r2) = read_type_spec(schema, data, st1, target, inner, passed);
                    match r2 {
                        Err(e) => (st2, Err(e)),
                        Ok(v) => (
                            State { pos: st.pos, ..st2 },
                            Ok(ValueView::Pointer { ptr, target: Some(Box::new(v)) }),
                        ),
                    }
                }
            } else {
                invalid(st)
            },
            _ => (st, Ok(value)),
        }
    } else {
        invalid(st)
    }
}

/// What is done to the value of a field after the last field was read: the
/// handler that was put off works on the value, or on the value inside a
/// present one where the field has a condition.
pub open spec fn deferred_link_spec(
    schema: &Schema,
    data: Seq<u8>,
    st: State,
    ty: usize,
    f: &FieldDirectives,
    value: ValueView,
    inner: ReadOptions,
    passed: Seq<i128>,
) -> Step<ValueView>
    decreases ty as int, 6int, 0int,
{
    if f.if_cond is Some {
        match value {
            ValueView::Present(held) => {
                let (st1, r) = link_spec(
                    schema,
                    data,
                    st,
                    ty,
                    f.ty,
                    f.deferred_handler(),
                    *held,
                    inner,
                    passed,
                );
                (
                    st1,
                    match r {
                        Ok(v) => Ok(ValueView::Present(Box::new(v))),
                        Err(e) => Err(e),
                    },
                )
            },
            _ => (st, Ok(value)),
        }
    } else {
        link_spec(schema, data, st, ty, f.ty, f.deferred_handler(), value, inner, passed)
    }
}

/// A handler that does nothing, and any handler on a field whose type is no
/// pointer, leaves the value and the state as they are.
pub proof fn lemma_idle_link(
    schema: &Schema,
    data: Seq<u8>,
    st: State,
    ty: usize,
    f: &FieldDirectives,
    value: ValueView,
    inner: ReadOptions,
    passed: Seq<i128>,
)
    requires
        f.ty < ty,
        f.ty < schema.defs().len(),
        f.deferred_handler() is Nop || !(schema.defs()[f.ty as int] is Pointer),
    ensures
        deferred_link_spec(schema, data, st, ty, f, value, inner, passed) == (st, Ok::<
            ValueView,
            ErrorView,
        >(value)),
{
    let handler = f.deferred_handler();
    if !(handler is Nop) {
        assert forall|v: ValueView|
            follow_spec(schema, data, st, ty, f.ty, v, inner, passed) == (st, Ok::<
                ValueView,
                ErrorView,
            >(v)) by {}
        match value {
            ValueView::Present(held) => {
                assert(follow_spec(schema, data, st, ty, f.ty, *held, inner, passed) == (st, Ok::<
                    ValueView,
                    ErrorView,
                >(*held)));
                assert(link_spec(schema, data, st, ty, f.ty, handler, *held, inner, passed) == (
                    st,
                    Ok::<ValueView, ErrorView>(*held),
                ));
                match *held {
                    ValueView::Present(deeper) => {
                        assert(follow_spec(schema, data, st, ty, f.ty, *deeper, inner, passed)
                            == (st, Ok::<ValueView, ErrorView>(*deeper)));
                    },
                    _ => {},
                }
            },
            _ => {},
        }
        assert(link_spec(schema, data, st, ty, f.ty, handler, value, inner, passed) == (
            st,
            Ok::<ValueView, ErrorView>(value),
        ));
    }
}

/// Following the pointers that were put off, from the field with index `k`
/// on, in declaration order. The options and arguments of each field are
/// computed anew: its expressions see the fields before it, `offset_after`
/// sees them all. The first pointer that fails ends the read.
pub open spec fn run_deferred_spec(
    schema: &Schema,
    data: Seq<u8>,
    st: State,
    ty: usize,
    fields: Seq<FieldDirectives>,
    k: nat,
    bound: Seq<ValueView>,
    options: ReadOptions,
    args: Seq<i128>,
) -> Step<Seq<ValueView>>
    decreases ty as int, 10int, fields.len() - k,
{
    if k >= fields.len() || k >= bound.len() {
        (st, Ok(bound))
    } else {
        let f = &fields[k as int];
        let inner = deferred_options_spec(options, f, bound, k, args);
        let passed = field_args_spec(f, bound, k, args);
        let (st1, r) = deferred_link_spec(schema, data, st, ty, f, bound[k as int], inner, passed);
        match r {
            Err(e) => (st1, Err(e)),
            Ok(v) => run_deferred_spec(
                schema,
                data,
                st1,
                ty,
                fields,
                k + 1,
                bound.update(k as int, v),
                options,
                args,
            ),
        }
    }
}

/// The index of the first variant from `from` on whose discriminant is `x`.
pub open spec fn find_discriminant(variants: Seq<VariantDef>, x: i128, from: nat) -> Option<nat>
    decreases variants.len() - from,
{
    if from >= variants.len() {
        None
    } else if variants[from as int].discriminant == x {
        Some(from)
    } else {
        find_discriminant(variants, x, from + 1)
    }
}

/// The index of the first variant from `from` on whose magic is `x`.
pub open spec fn find_magic(variants: Seq<VariantDef>, x: i128, from: nat) -> Option<nat>
    decreases variants.len() - from,
{
    if from >= variants.len() {
        None
    } else if variants[from as int].attrs.magic is Some && variants[from as int].attrs.magic->0.value
        == x {
        Some(from)
    } else {
        find_magic(variants, x, from + 1)
    }
}

/// Finding the variant of an enum by one number: a number of type `kind` is
/// read in the byte order of the enum; the first variant, in declaration
/// order, whose discriminant (or, with `by_magic`, whose magic) it equals is
/// the value. With no such variant the read fails at the position of the
/// number.
pub open spec fn dispatch_spec(
    data: Seq<u8>,
    st: State,
    ty: usize,
    def: &EnumDef,
    kind: IntType,
    by_magic: bool,
    options: ReadOptions,
) -> Step<ValueView> {
    let inner = type_options_spec(options, def.attrs.endian);
    let (st1, r) = read_number_spec(data, st, kind, inner.endian);
    match r {
        Err(e) => (st1, Err(e)),
        Ok(x) => {
            let found = if by_magic {
                find_magic(def.variants@, x, 0)
            } else {
                find_discriminant(def.variants@, x, 0)
            };
            match found {
                Some(index) => (
                    st1,
                    Ok(ValueView::Variant { ty, index: index as usize, fields: Seq::empty() }),
                ),
                None => (st1, Err(ErrorView::NoVariantMatch { pos: st.pos })),
            }
        },
    }
}

/// Reading the enum with index `ty`: the trace is told that the enum begins,
/// the variant is found by the strategy of the enum, the mapping of the enum
/// is applied to the variant, and the trace is told how it ended. A mapping
/// that rejects fails at the position behind the variant.
pub open spec fn read_enum_spec(
    schema: &Schema,
    data: Seq<u8>,
    st: State,
    ty: usize,
    options: ReadOptions,
    args: Seq<i128>,
) -> Step<ValueView>
    decreases ty as int, 18int, 0int,
{
    if ty >= schema.defs().len() {
        invalid(st)
    } else {
        match schema.defs()[ty as int] {
            TypeDef::Enum(def) => {
                let st0 = start_spec(st, def.name@);
                let (st1, r) = match def.strategy_spec() {
                    Ok(Strategy::Discriminant(kind)) => dispatch_spec(
                        data,
                        st0,
                        ty,
                        &def,
                        kind,
                        false,
                        options,
                    ),
                    Ok(Strategy::UniformMagic(kind)) => dispatch_spec(
                        data,
                        st0,
                        ty,
                        &def,
                        kind,
                        true,
                        options,
                    ),
                    Ok(Strategy::Backtracking) => try_variants_spec(
                        schema,
                        data,
                        st0,
                        ty,
                        &def,
                        0,
                        Seq::empty(),
                        options,
                        args,
                    ),
                    Err(_) => invalid(st0),
                };
                let out = match r {
                    Ok(v) => apply_type_map_spec(&def.attrs.map, v, args, st1.pos),
                    Err(e) => Err(e),
                };
                (finish_spec(st1, out, options.variable_name), out)
            },
            _ => invalid(st),
        }
    }
}

/// Whether the enum gives up at the first variant that fails.
pub open spec fn terminal(def: &EnumDef) -> bool {
    def.attrs.return_error_mode == EnumErrorHandling::ReturnUnexpectedError
}

/// Trying the variants from index `i` on, in declaration order, after the
/// variants before have failed with `errors`. Every variant is tried at the
/// position where the cursor stands in `st`, which is where it stood when the
/// first was tried. The first variant that can be read is the value, and the
/// cursor is left behind it. After a variant that fails the cursor returns to
/// where it stood. Then an enum that gives up at once fails with
/// `NoVariantMatch`; any other goes on, and fails with the errors of all
/// variants when the last has failed.
pub open spec fn try_variants_spec(
    schema: &Schema,
    data: Seq<u8>,
    st: State,
    ty: usize,
    def: &EnumDef,
    i: nat,
    errors: Seq<(Seq<char>, ErrorView)>,
    options: ReadOptions,
    args: Seq<i128>,
) -> Step<ValueView>
    decreases ty as int, 16int, def.variants@.len() - i,
{
    if i >= def.variants@.len() {
        (st, Err(ErrorView::EnumErrors { pos: st.pos, variant_errors: errors }))
    } else {
        let (st1, r) = attempt_spec(schema, data, st, ty, def, i, options, args);
        match r {
            Ok(v) => (st1, Ok(v)),
            Err(e) => if terminal(def) {
                (st1, Err(ErrorView::NoVariantMatch { pos: st.pos }))
            } else {
                try_variants_spec(
                    schema,
                    data,
                    st1,
                    ty,
                    def,
                    i + 1,
                    errors.push((def.variants@[i as int].name@, e)),
                    options,
                    args,
                )
            },
        }
    }
}

/// One attempt at the variant with index `i`: the variant is read by
/// [`read_variant_spec`]; if that fails, the cursor returns to where it stood
/// before the attempt.
pub open spec fn attempt_spec(
    schema: &Schema,
    data: Seq<u8>,
    st: State,
    ty: usize,
    def: &EnumDef,
    i: nat,
    options: ReadOptions,
    args: Seq<i128>,
) -> Step<ValueView>
    decreases ty as int, 15int, 0int,
{
    let (st1, r) = read_variant_spec(schema, data, st, ty, def, i, options, args);
    match r {
        Ok(v) => (st1, Ok(v)),
        Err(e) => (State { pos: st.pos, ..st1 }, Err(e)),
    }
}

/// Reading the variant with index `i` of an enum: its body is read by
/// [`read_body_spec`] under the directives of the enum and its own.
pub open spec fn read_variant_spec(
    schema: &Schema,
    data: Seq<u8>,
    st: State,
    ty: usize,
    def: &EnumDef,
    i: nat,
    options: ReadOptions,
    args: Seq<i128>,
) -> Step<ValueView>
    decreases ty as int, 14int, 0int,
{
    if i >= def.variants@.len() {
        invalid(st)
    } else {
        let variant = &def.variants@[i as int];
        let (st1, r) = read_body_spec(
            schema,
            data,
            st,
            ty,
            &def.attrs,
            Some(&variant.attrs),
            variant.fields@,
            options,
            args,
        );
        (
            st1,
            match r {
                Ok(fields) => Ok(ValueView::Variant { ty, index: i as usize, fields }),
                Err(e) => Err(e),
            },
        )
    }
}

} // verus!
