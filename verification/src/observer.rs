//! The trace observes a read and does not steer it: what is read, where the
//! cursor ends and how a read fails are the same with and without a trace.

use vstd::prelude::*;
use crate::directive::{AfterParse, FieldAction, FieldDirectives, TypeDirectives};
use crate::error::ErrorView;
use crate::io::State;
use crate::model::{
    attempt_spec,
    deferred_link_spec,
    dispatch_spec,
    field_hooks_spec,
    follow_spec,
    link_spec,
    pointee,
    read_body_spec,
    read_elems_spec,
    read_enum_spec,
    read_field_spec,
    read_fields_spec,
    read_struct_spec,
    read_type_spec,
    read_variant_spec,
    run_action_spec,
    run_deferred_spec,
    separated_from,
    separated_spec,
    terminal,
    tried,
    try_variants_spec,
};
use crate::options::ReadOptions;
use crate::planner::{
    apply_map_spec,
    check_magic_spec,
    deferred_options_spec,
    field_args_spec,
    field_options_spec,
    finish_spec,
    merged_endian_spec,
    merged_magic_spec,
    start_spec,
    type_options_spec,
};
use crate::schema::{EnumDef, Schema, Strategy, TypeDef};
use crate::skips::{
    lemma_moves_touch_the_position_only,
    moved,
    skip_before_spec,
    Step,
};
use crate::value::ValueView;

verus! {

/// What two runs of one step have in common when they begin at one position,
/// in the states `st` and `st2`: they give the same result and end at the same
/// position. Besides, neither switches its trace on or off, a run without a
/// trace leaves the log as it was, and a run with a trace only adds to the
/// log.
pub open spec fn alike<T>(st: State, st2: State, a: Step<T>, b: Step<T>) -> bool {
    &&& a.1 == b.1
    &&& a.0.pos == b.0.pos
    &&& a.0.tracing == st.tracing
    &&& b.0.tracing == st2.tracing
    &&& !st.tracing ==> a.0.log == st.log
    &&& !st2.tracing ==> b.0.log == st2.log
    &&& st.log.is_prefix_of(a.0.log)
    &&& st2.log.is_prefix_of(b.0.log)
}

/// Reading a value gives the same result and ends at the same position,
/// whatever the trace holds and whether it records or not; the trace is
/// neither switched on nor off, a trace that does not record stays as it is,
/// and one that records keeps what it held and adds to it.
pub proof fn law_trace_is_silent(
    schema: &Schema,
    data: Seq<u8>,
    st: State,
    st2: State,
    ty: usize,
    options: ReadOptions,
    args: Seq<i128>,
)
    requires
        st.pos == st2.pos,
    ensures
        alike(
            st,
            st2,
            read_type_spec(schema, data, st, ty, options, args),
            read_type_spec(schema, data, st2, ty, options, args),
        ),
    decreases ty as int, 20int, 0int,
{
    if ty < schema.defs().len() {
        match schema.defs()[ty as int] {
            TypeDef::Array { elem, len } => {
                if elem < ty {
                    lemma_elems_alike(
                        schema,
                        data,
                        st,
                        st2,
                        elem,
                        options,
                        args,
                        len as nat,
                        Seq::empty(),
                    );
                }
            },
            TypeDef::List { elem } => {
                if elem < ty && options.count is Some {
                    lemma_elems_alike(
                        schema,
                        data,
                        st,
                        st2,
                        elem,
                        ReadOptions { count: None, ..options },
                        args,
                        options.count->0 as nat,
                        Seq::empty(),
                    );
                }
            },
            TypeDef::Struct(_) => {
                lemma_struct_alike(schema, data, st, st2, ty, options, args);
            },
            TypeDef::Enum(_) => {
                lemma_enum_alike(schema, data, st, st2, ty, options, args);
            },
            _ => {},
        }
    }
}

proof fn lemma_elems_alike(
    schema: &Schema,
    data: Seq<u8>,
    st: State,
    st2: State,
    elem: usize,
    options: ReadOptions,
    args: Seq<i128>,
    n: nat,
    acc: Seq<ValueView>,
)
    requires
        st.pos == st2.pos,
    ensures
        alike(
            st,
            st2,
            read_elems_spec(schema, data, st, elem, options, args, n, acc),
            read_elems_spec(schema, data, st2, elem, options, args, n, acc),
        ),
    decreases elem + 1, 0int, n - acc.len(),
{
    if acc.len() < n {
        law_trace_is_silent(schema, data, st, st2, elem, options, args);
        let (a1, r) = read_type_spec(schema, data, st, elem, options, args);
        let (b1, _) = read_type_spec(schema, data, st2, elem, options, args);
        if let Ok(v) = r {
            lemma_elems_alike(schema, data, a1, b1, elem, options, args, n, acc.push(v));
        }
    }
}

proof fn lemma_separated_from_alike(
    schema: &Schema,
    data: Seq<u8>,
    st: State,
    st2: State,
    item: usize,
    separator: usize,
    trailing: bool,
    options: ReadOptions,
    args: Seq<i128>,
    n: nat,
    items: Seq<ValueView>,
    separators: Seq<ValueView>,
)
    requires
        st.pos == st2.pos,
    ensures
        alike(
            st,
            st2,
            separated_from(
                schema,
                data,
                st,
                item,
                separator,
                trailing,
                options,
                args,
                n,
                items,
                separators,
            ),
            separated_from(
                schema,
                data,
                st2,
                item,
                separator,
                trailing,
                options,
                args,
                n,
                items,
                separators,
            ),
        ),
    decreases crate::model::larger(item, separator) + 1, 0int, n - items.len(),
{
    if items.len() < n {
        law_trace_is_silent(schema, data, st, st2, item, options, args);
        let (a1, r1) = read_type_spec(schema, data, st, item, options, args);
        let (b1, _) = read_type_spec(schema, data, st2, item, options, args);
        if let Ok(v) = r1 {
            if trailing || items.len() + 1 != n {
                law_trace_is_silent(schema, data, a1, b1, separator, options, Seq::empty());
                let (a2, r2) = read_type_spec(schema, data, a1, separator, options, Seq::empty());
                let (b2, _) = read_type_spec(schema, data, b1, separator, options, Seq::empty());
                if let Ok(s) = r2 {
                    lemma_separated_from_alike(
                        schema,
                        data,
                        a2,
                        b2,
                        item,
                        separator,
                        trailing,
                        options,
                        args,
                        n,
                        items.push(v),
                        separators.push(s),
                    );
                }
            } else {
                lemma_separated_from_alike(
                    schema,
                    data,
                    a1,
                    b1,
                    item,
                    separator,
                    trailing,
                    options,
                    args,
                    n,
                    items.push(v),
                    separators,
                );
            }
        }
    }
}

/// Reading a list of items with separators gives the same result and ends at
/// the same position, whatever the trace holds and whether it records or not.
pub proof fn law_separated_is_silent(
    schema: &Schema,
    data: Seq<u8>,
    st: State,
    st2: State,
    item: usize,
    separator: usize,
    trailing: bool,
    options: ReadOptions,
    args: Seq<i128>,
)
    requires
        st.pos == st2.pos,
    ensures
        alike(
            st,
            st2,
            separated_spec(schema, data, st, item, separator, trailing, options, args),
            separated_spec(schema, data, st2, item, separator, trailing, options, args),
        ),
    decreases crate::model::larger(item, separator) + 1, 1int, 0int,
{
    if let Some(n) = options.count {
        lemma_separated_from_alike(
            schema,
            data,
            st,
            st2,
            item,
            separator,
            trailing,
            options,
            args,
            n as nat,
            Seq::empty(),
            Seq::empty(),
        );
    }
}

/// What the end of a type adds to the log stands behind what the log held.
proof fn lemma_finish_extends<T>(st: State, r: Result<T, ErrorView>, name: Option<String>)
    ensures
        st.log.is_prefix_of(finish_spec(st, r, name).log),
        finish_spec(st, r, name).pos == st.pos,
        finish_spec(st, r, name).tracing == st.tracing,
        !st.tracing ==> finish_spec(st, r, name).log == st.log,
{
}

/// What the start of a type adds to the log stands behind what the log held.
proof fn lemma_start_extends(st: State, name: Seq<char>)
    ensures
        st.log.is_prefix_of(start_spec(st, name).log),
        start_spec(st, name).pos == st.pos,
        start_spec(st, name).tracing == st.tracing,
        !st.tracing ==> start_spec(st, name).log == st.log,
{
}

proof fn lemma_struct_alike(
    schema: &Schema,
    data: Seq<u8>,
    st: State,
    st2: State,
    ty: usize,
    options: ReadOptions,
    args: Seq<i128>,
)
    requires
        st.pos == st2.pos,
    ensures
        alike(
            st,
            st2,
            read_struct_spec(schema, data, st, ty, options, args),
            read_struct_spec(schema, data, st2, ty, options, args),
        ),
    decreases ty as int, 18int, 0int,
{
    if ty < schema.defs().len() {
        if let TypeDef::Struct(def) = schema.defs()[ty as int] {
            let a0 = start_spec(st, def.name@);
            let b0 = start_spec(st2, def.name@);
            lemma_start_extends(st, def.name@);
            lemma_start_extends(st2, def.name@);
            lemma_body_alike(
                schema,
                data,
                a0,
                b0,
                ty,
                &def.attrs,
                None,
                def.fields@,
                options,
                args,
            );
            let (a1, r) = read_body_spec(
                schema,
                data,
                a0,
                ty,
                &def.attrs,
                None,
                def.fields@,
                options,
                args,
            );
            let (b1, r2) = read_body_spec(
                schema,
                data,
                b0,
                ty,
                &def.attrs,
                None,
                def.fields@,
                options,
                args,
            );
            lemma_finish_extends(a1, r, options.variable_name);
            lemma_finish_extends(b1, r2, options.variable_name);
        }
    }
}

proof fn lemma_body_alike(
    schema: &Schema,
    data: Seq<u8>,
    st: State,
    st2: State,
    ty: usize,
    top: &TypeDirectives,
    variant: Option<&TypeDirectives>,
    fields: Seq<FieldDirectives>,
    options: ReadOptions,
    args: Seq<i128>,
)
    requires
        st.pos == st2.pos,
    ensures
        alike(
            st,
            st2,
            read_body_spec(schema, data, st, ty, top, variant, fields, options, args),
            read_body_spec(schema, data, st2, ty, top, variant, fields, options, args),
        ),
    decreases ty as int, 12int, 0int,
{
    let inner = type_options_spec(options, merged_endian_spec(top, variant));
    let magic = merged_magic_spec(top, variant);
    let (a1, r1) = check_magic_spec(data, st, magic, inner.endian);
    let (b1, _) = check_magic_spec(data, st2, magic, inner.endian);
    if r1 is Ok {
        lemma_fields_alike(schema, data, a1, b1, ty, fields, Seq::empty(), inner, args);
        let (a2, r4) = read_fields_spec(schema, data, a1, ty, fields, Seq::empty(), inner, args);
        let (b2, _) = read_fields_spec(schema, data, b1, ty, fields, Seq::empty(), inner, args);
        if let Ok(bound) = r4 {
            lemma_deferred_alike(schema, data, a2, b2, ty, fields, 0, bound, inner, args);
        }
    }
}

proof fn lemma_fields_alike(
    schema: &Schema,
    data: Seq<u8>,
    st: State,
    st2: State,
    ty: usize,
    fields: Seq<FieldDirectives>,
    bound: Seq<ValueView>,
    options: ReadOptions,
    args: Seq<i128>,
)
    requires
        st.pos == st2.pos,
    ensures
        alike(
            st,
            st2,
            read_fields_spec(schema, data, st, ty, fields, bound, options, args),
            read_fields_spec(schema, data, st2, ty, fields, bound, options, args),
        ),
    decreases ty as int, 10int, fields.len() - bound.len(),
{
    if bound.len() < fields.len() {
        let f = &fields[bound.len() as int];
        lemma_field_alike(schema, data, st, st2, ty, f, bound, options, args);
        let (a1, r) = read_field_spec(schema, data, st, ty, f, bound, options, args);
        let (b1, _) = read_field_spec(schema, data, st2, ty, f, bound, options, args);
        if let Ok(v) = r {
            lemma_fields_alike(schema, data, a1, b1, ty, fields, bound.push(v), options, args);
        }
    }
}

proof fn lemma_field_alike(
    schema: &Schema,
    data: Seq<u8>,
    st: State,
    st2: State,
    ty: usize,
    f: &FieldDirectives,
    bound: Seq<ValueView>,
    options: ReadOptions,
    args: Seq<i128>,
)
    requires
        st.pos == st2.pos,
    ensures
        alike(
            st,
            st2,
            read_field_spec(schema, data, st, ty, f, bound, options, args),
            read_field_spec(schema, data, st2, ty, f, bound, options, args),
        ),
    decreases ty as int, 8int, 0int,
{
    lemma_hooks_alike(schema, data, st, st2, ty, f, bound, options, args);
}

proof fn lemma_hooks_alike(
    schema: &Schema,
    data: Seq<u8>,
    st: State,
    st2: State,
    ty: usize,
    f: &FieldDirectives,
    bound: Seq<ValueView>,
    options: ReadOptions,
    args: Seq<i128>,
)
    requires
        st.pos == st2.pos,
    ensures
        alike(
            st,
            st2,
            field_hooks_spec(schema, data, st, ty, f, bound, options, args),
            field_hooks_spec(schema, data, st2, ty, f, bound, options, args),
        ),
    decreases ty as int, 7int, 0int,
{
    let visible = bound.len();
    let inner = field_options_spec(options, f, bound, visible, args);
    let passed = field_args_spec(f, bound, visible, args);
    let (a1, r1) = skip_before_spec(st, f, bound, visible, args);
    let (b1, _) = skip_before_spec(st2, f, bound, visible, args);
    lemma_moves_touch_the_position_only(st, st2, f, 0, bound, visible, args);
    if r1 is Ok {
        lemma_action_alike(schema, data, a1, b1, ty, f, bound, inner, passed, args);
        let (a2, r2) = run_action_spec(schema, data, a1, ty, f, bound, inner, passed, args);
        let (b2, _) = run_action_spec(schema, data, b1, ty, f, bound, inner, passed, args);
        let r2t = if f.do_try {
            Ok(tried(r2))
        } else {
            r2
        };
        if let Ok(raw) = r2t {
            if let Ok(mapped) = apply_map_spec(&f.map, raw, bound, args, a2.pos) {
                lemma_link_alike(
                    schema,
                    data,
                    a2,
                    b2,
                    ty,
                    f.ty,
                    f.immediate_handler(),
                    mapped,
                    inner,
                    passed,
                );
                let (a5, _) = link_spec(
                    schema,
                    data,
                    a2,
                    ty,
                    f.ty,
                    f.immediate_handler(),
                    mapped,
                    inner,
                    passed,
                );
                let (b5, _) = link_spec(
                    schema,
                    data,
                    b2,
                    ty,
                    f.ty,
                    f.immediate_handler(),
                    mapped,
                    inner,
                    passed,
                );
                lemma_moves_touch_the_position_only(a5, b5, f, a1.pos, bound, visible, args);
            }
        }
    }
}

proof fn lemma_action_alike(
    schema: &Schema,
    data: Seq<u8>,
    st: State,
    st2: State,
    ty: usize,
    f: &FieldDirectives,
    bound: Seq<ValueView>,
    inner: ReadOptions,
    passed: Seq<i128>,
    args: Seq<i128>,
)
    requires
        st.pos == st2.pos,
    ensures
        alike(
            st,
            st2,
            run_action_spec(schema, data, st, ty, f, bound, inner, passed, args),
            run_action_spec(schema, data, st2, ty, f, bound, inner, passed, args),
        ),
    decreases ty as int, 6int, 0int,
{
    match f.action() {
        FieldAction::Custom(parser) => {
            if f.ty < ty && parser.separator() < ty {
                law_separated_is_silent(
                    schema,
                    data,
                    st,
                    st2,
                    f.ty,
                    parser.separator(),
                    parser.trailing(),
                    inner,
                    passed,
                );
            }
        },
        FieldAction::Normal => {
            if f.ty < ty {
                law_trace_is_silent(schema, data, st, st2, f.ty, inner, passed);
            }
        },
        _ => {},
    }
}

proof fn lemma_link_alike(
    schema: &Schema,
    data: Seq<u8>,
    st: State,
    st2: State,
    ty: usize,
    field_ty: usize,
    handler: AfterParse,
    value: ValueView,
    inner: ReadOptions,
    passed: Seq<i128>,
)
    requires
        st.pos == st2.pos,
    ensures
        alike(
            st,
            st2,
            link_spec(schema, data, st, ty, field_ty, handler, value, inner, passed),
            link_spec(schema, data, st2, ty, field_ty, handler, value, inner, passed),
        ),
    decreases ty as int, 5int, 0int,
{
    match handler {
        AfterParse::Nop => {},
        AfterParse::Normal => {
            lemma_follow_alike(schema, data, st, st2, ty, field_ty, value, inner, passed);
        },
        AfterParse::Try => {
            if let ValueView::Present(held) = value {
                lemma_follow_alike(schema, data, st, st2, ty, field_ty, *held, inner, passed);
            }
        },
    }
}

proof fn lemma_follow_alike(
    schema: &Schema,
    data: Seq<u8>,
    st: State,
    st2: State,
    ty: usize,
    field_ty: usize,
    value: ValueView,
    inner: ReadOptions,
    passed: Seq<i128>,
)
    requires
        st.pos == st2.pos,
    ensures
        alike(
            st,
            st2,
            follow_spec(schema, data, st, ty, field_ty, value, inner, passed),
            follow_spec(schema, data, st2, ty, field_ty, value, inner, passed),
        ),
    decreases ty as int, 4int, 0int,
{
    if field_ty < ty && field_ty < schema.defs().len() {
        if let (TypeDef::Pointer { target, .. }, ValueView::Pointer { ptr, .. }) = (
            schema.defs()[field_ty as int],
            value,
        ) {
            if target < field_ty {
                let (a1, r1) = moved(st, pointee(ptr, inner));
                let (b1, _) = moved(st2, pointee(ptr, inner));
                if r1 is Ok {
                    law_trace_is_silent(schema, data, a1, b1, target, inner, passed);
                }
            }
        }
    }
}

proof fn lemma_deferred_link_alike(
    schema: &Schema,
    data: Seq<u8>,
    st: State,
    st2: State,
    ty: usize,
    f: &FieldDirectives,
    value: ValueView,
    inner: ReadOptions,
    passed: Seq<i128>,
)
    requires
        st.pos == st2.pos,
    ensures
        alike(
            st,
            st2,
            deferred_link_spec(schema, data, st, ty, f, value, inner, passed),
            deferred_link_spec(schema, data, st2, ty, f, value, inner, passed),
        ),
    decreases ty as int, 6int, 0int,
{
    if f.if_cond is Some {
        if let ValueView::Present(held) = value {
            lemma_link_alike(
                schema,
                data,
                st,
                st2,
                ty,
                f.ty,
                f.deferred_handler(),
                *held,
                inner,
                passed,
            );
        }
    } else {
        lemma_link_alike(schema, data, st, st2, ty, f.ty, f.deferred_handler(), value, inner, passed);
    }
}

proof fn lemma_deferred_alike(
    schema: &Schema,
    data: Seq<u8>,
    st: State,
    st2: State,
    ty: usize,
    fields: Seq<FieldDirectives>,
    k: nat,
    bound: Seq<ValueView>,
    options: ReadOptions,
    args: Seq<i128>,
)
    requires
        st.pos == st2.pos,
    ensures
        alike(
            st,
            st2,
            run_deferred_spec(schema, data, st, ty, fields, k, bound, options, args),
            run_deferred_spec(schema, data, st2, ty, fields, k, bound, options, args),
        ),
    decreases ty as int, 10int, fields.len() - k,
{
    if k < fields.len() && k < bound.len() {
        let f = &fields[k as int];
        let inner = deferred_options_spec(options, f, bound, k, args);
        let passed = field_args_spec(f, bound, k, args);
        lemma_deferred_link_alike(schema, data, st, st2, ty, f, bound[k as int], inner, passed);
        let (a1, r) = deferred_link_spec(schema, data, st, ty, f, bound[k as int], inner, passed);
        let (b1, _) = deferred_link_spec(schema, data, st2, ty, f, bound[k as int], inner, passed);
        if let Ok(v) = r {
            lemma_deferred_alike(
                schema,
                data,
                a1,
                b1,
                ty,
                fields,
                k + 1,
                bound.update(k as int, v),
                options,
                args,
            );
        }
    }
}

/// What the strategy of an enum makes of a state.
spec fn enum_body(
    schema: &Schema,
    data: Seq<u8>,
    st0: State,
    ty: usize,
    def: &EnumDef,
    options: ReadOptions,
    args: Seq<i128>,
) -> Step<ValueView> {
    match def.strategy_spec() {
        Ok(Strategy::Discriminant(kind)) => dispatch_spec(data, st0, ty, def, kind, false, options),
        Ok(Strategy::UniformMagic(kind)) => dispatch_spec(data, st0, ty, def, kind, true, options),
        Ok(Strategy::Backtracking) => try_variants_spec(
            schema,
            data,
            st0,
            ty,
            def,
            0,
            Seq::empty(),
            options,
            args,
        ),
        Err(_) => crate::model::invalid(st0),
    }
}

proof fn lemma_enum_alike(
    schema: &Schema,
    data: Seq<u8>,
    st: State,
    st2: State,
    ty: usize,
    options: ReadOptions,
    args: Seq<i128>,
)
    requires
        st.pos == st2.pos,
    ensures
        alike(
            st,
            st2,
            read_enum_spec(schema, data, st, ty, options, args),
            read_enum_spec(schema, data, st2, ty, options, args),
        ),
    decreases ty as int, 18int, 0int,
{
    if ty < schema.defs().len() {
        if let TypeDef::Enum(def) = schema.defs()[ty as int] {
            let a0 = start_spec(st, def.name@);
            let b0 = start_spec(st2, def.name@);
            lemma_start_extends(st, def.name@);
            lemma_start_extends(st2, def.name@);
            if def.strategy_spec() == Ok::<Strategy, crate::schema::SchemaError>(
                Strategy::Backtracking,
            ) {
                lemma_variants_alike(schema, data, a0, b0, ty, &def, 0, Seq::empty(), options, args);
            }
            let a1 = enum_body(schema, data, a0, ty, &def, options, args);
            let b1 = enum_body(schema, data, b0, ty, &def, options, args);
            assert(alike(a0, b0, a1, b1));
            lemma_finish_extends(a1.0, a1.1, options.variable_name);
            lemma_finish_extends(b1.0, b1.1, options.variable_name);
        }
    }
}

proof fn lemma_variants_alike(
    schema: &Schema,
    data: Seq<u8>,
    st: State,
    st2: State,
    ty: usize,
    def: &EnumDef,
    i: nat,
    errors: Seq<(Seq<char>, ErrorView)>,
    options: ReadOptions,
    args: Seq<i128>,
)
    requires
        st.pos == st2.pos,
    ensures
        alike(
            st,
            st2,
            try_variants_spec(schema, data, st, ty, def, i, errors, options, args),
            try_variants_spec(schema, data, st2, ty, def, i, errors, options, args),
        ),
    decreases ty as int, 16int, def.variants@.len() - i,
{
    if i < def.variants@.len() {
        lemma_attempt_alike(schema, data, st, st2, ty, def, i, options, args);
        let (a1, r) = attempt_spec(schema, data, st, ty, def, i, options, args);
        let (b1, _) = attempt_spec(schema, data, st2, ty, def, i, options, args);
        if let Err(e) = r {
            if !terminal(def) {
                lemma_variants_alike(
                    schema,
                    data,
                    a1,
                    b1,
                    ty,
                    def,
                    i + 1,
                    errors.push((def.variants@[i as int].name@, e)),
                    options,
                    args,
                );
            }
        }
    }
}

proof fn lemma_attempt_alike(
    schema: &Schema,
    data: Seq<u8>,
    st: State,
    st2: State,
    ty: usize,
    def: &EnumDef,
    i: nat,
    options: ReadOptions,
    args: Seq<i128>,
)
    requires
        st.pos == st2.pos,
    ensures
        alike(
            st,
            st2,
            attempt_spec(schema, data, st, ty, def, i, options, args),
            attempt_spec(schema, data, st2, ty, def, i, options, args),
        ),
    decreases ty as int, 15int, 0int,
{
    lemma_variant_alike(schema, data, st, st2, ty, def, i, options, args);
}

proof fn lemma_variant_alike(
    schema: &Schema,
    data: Seq<u8>,
    st: State,
    st2: State,
    ty: usize,
    def: &EnumDef,
    i: nat,
    options: ReadOptions,
    args: Seq<i128>,
)
    requires
        st.pos == st2.pos,
    ensures
        alike(
            st,
            st2,
            read_variant_spec(schema, data, st, ty, def, i, options, args),
            read_variant_spec(schema, data, st2, ty, def, i, options, args),
        ),
    decreases ty as int, 14int, 0int,
{
    if i < def.variants@.len() {
        let variant = &def.variants@[i as int];
        lemma_body_alike(
            schema,
            data,
            st,
            st2,
            ty,
            &def.attrs,
            Some(&variant.attrs),
            variant.fields@,
            options,
            args,
        );
    }
}

} // verus!
