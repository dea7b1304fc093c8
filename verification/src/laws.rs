//! What holds of every read, proved from the model of reading.

use vstd::prelude::*;
use crate::directive::{Assert, FieldDirectives, Magic};
use crate::endian::Endian;
use crate::error::ErrorView;
use crate::io::{IntType, State};
use crate::model::{
    attempt_spec,
    deferred_link_spec,
    field_hooks_spec,
    follow_spec,
    read_elems_spec,
    read_enum_spec,
    read_number_spec,
    read_type_spec,
    run_deferred_spec,
    separated_from,
    find_discriminant,
    find_magic,
    read_field_spec,
    read_fields_spec,
    run_action_spec,
    terminal,
    tried,
    try_variants_spec,
};
use crate::options::ReadOptions;
use crate::planner::{
    apply_map_spec,
    assertion_error,
    assertions_from,
    check_assertions_spec,
    check_magic_spec,
    deferred_options_spec,
    field_args_spec,
    field_options_spec,
    permanent_spec,
    start_spec,
};
use crate::schema::{EnumDef, Schema, SchemaError, Strategy, TypeDef, VariantDef};
use crate::skips::{align_padding, moved, size_padding, skip_before_spec};
use crate::value::ValueView;

verus! {

/// A step that fails names the position at which it began: a number that
/// cannot be read and a move that cannot be made fail where the cursor stood
/// and leave it there, and a magic that is not found fails where the magic
/// began.
pub proof fn law_failures_name_their_start(
    data: Seq<u8>,
    st: State,
    kind: IntType,
    endian: Endian,
    target: int,
    magic: Option<Magic>,
)
    ensures
        read_number_spec(data, st, kind, endian).1 matches Err(e) ==> {
            &&& e == (ErrorView::IoFailure { pos: st.pos })
            &&& read_number_spec(data, st, kind, endian).0 == st
            &&& st.pos + kind.width() > data.len()
        },
        moved(st, target).1 matches Err(e) ==> {
            &&& e == (ErrorView::IoFailure { pos: st.pos })
            &&& moved(st, target).0 == st
            &&& (target < 0 || target > u64::MAX)
        },
        check_magic_spec(data, st, magic, endian).1 matches Err(e) ==> e.pos() == st.pos,
{
}

/// An attempt at a variant that fails leaves the cursor where it stood when
/// the attempt began, whatever the bytes are and whichever variant it is.
pub proof fn law_failed_attempt_restores(
    schema: &Schema,
    data: Seq<u8>,
    st: State,
    ty: usize,
    def: &EnumDef,
    i: nat,
    options: ReadOptions,
    args: Seq<i128>,
)
    ensures
        attempt_spec(schema, data, st, ty, def, i, options, args).1 is Err ==> attempt_spec(
            schema,
            data,
            st,
            ty,
            def,
            i,
            options,
            args,
        ).0.pos == st.pos,
{
}

/// A search through the variants that finds none leaves the cursor where it
/// stood when the search began, and its error names that position: as
/// `NoVariantMatch` for an enum that gives up at once and had a variant left
/// to try, and else with the errors of the variants, one more than before for
/// every variant tried.
pub proof fn law_failed_search_restores(
    schema: &Schema,
    data: Seq<u8>,
    st: State,
    ty: usize,
    def: &EnumDef,
    i: nat,
    errors: Seq<(Seq<char>, ErrorView)>,
    options: ReadOptions,
    args: Seq<i128>,
)
    requires
        i <= def.variants@.len(),
    ensures
        ({
            let (after, r) = try_variants_spec(schema, data, st, ty, def, i, errors, options, args);
            r matches Err(e) ==> {
                &&& after.pos == st.pos
                &&& e.pos() == st.pos
                &&& terminal(def) && i < def.variants@.len() ==> e == (ErrorView::NoVariantMatch {
                    pos: st.pos,
                })
                &&& !terminal(def) ==> (e matches ErrorView::EnumErrors { variant_errors, .. }
                    && variant_errors.len() == errors.len() + def.variants@.len() - i)
            }
        }),
    decreases def.variants@.len() - i,
{
    if i < def.variants@.len() {
        let (st1, r) = attempt_spec(schema, data, st, ty, def, i, options, args);
        if r is Err && !terminal(def) {
            assert(st1.pos == st.pos);
            assert(try_variants_spec(schema, data, st, ty, def, i, errors, options, args)
                == try_variants_spec(
                schema,
                data,
                st1,
                ty,
                def,
                i + 1,
                errors.push((def.variants@[i as int].name@, r->Err_0)),
                options,
                args,
            ));
            law_failed_search_restores(
                schema,
                data,
                st1,
                ty,
                def,
                i + 1,
                errors.push((def.variants@[i as int].name@, r->Err_0)),
                options,
                args,
            );
        }
    }
}

/// An enum whose variants are tried in turn and of which none can be read
/// leaves the cursor where it stood before the enum, and its error names that
/// position. This is said of an enum whose mapping cannot reject: one that
/// can may fail behind a variant that was read.
pub proof fn law_failed_enum_restores(
    schema: &Schema,
    data: Seq<u8>,
    st: State,
    ty: usize,
    options: ReadOptions,
    args: Seq<i128>,
)
    requires
        ty < schema.defs().len(),
        schema.defs()[ty as int] matches TypeDef::Enum(def) && def.strategy_spec() == Ok::<
            Strategy,
            SchemaError,
        >(Strategy::Backtracking) && !(def.attrs.map is Try),
    ensures
        read_type_spec(schema, data, st, ty, options, args).1 matches Err(e) ==> {
            &&& read_type_spec(schema, data, st, ty, options, args).0.pos == st.pos
            &&& e.pos() == st.pos
        },
{
    let def = schema.defs()[ty as int]->Enum_0;
    law_failed_search_restores(
        schema,
        data,
        start_spec(st, def.name@),
        ty,
        &def,
        0,
        Seq::empty(),
        options,
        args,
    );
    assert(read_type_spec(schema, data, st, ty, options, args) == read_enum_spec(
        schema,
        data,
        st,
        ty,
        options,
        args,
    ));
}

/// A field that restores the position leaves the cursor where it stood before
/// the field, whether it could be read or not.
pub proof fn law_restored_field_keeps_cursor(
    schema: &Schema,
    data: Seq<u8>,
    st: State,
    ty: usize,
    f: &FieldDirectives,
    bound: Seq<ValueView>,
    options: ReadOptions,
    args: Seq<i128>,
)
    requires
        f.restore_position,
    ensures
        read_field_spec(schema, data, st, ty, f, bound, options, args).0.pos == st.pos,
{
}

/// The state in which the variant with index `i` is tried when every variant
/// before it has failed.
pub open spec fn state_before(
    schema: &Schema,
    data: Seq<u8>,
    st: State,
    ty: usize,
    def: &EnumDef,
    i: nat,
    options: ReadOptions,
    args: Seq<i128>,
) -> State
    decreases i,
{
    if i == 0 {
        st
    } else {
        attempt_spec(
            schema,
            data,
            state_before(schema, data, st, ty, def, (i - 1) as nat, options, args),
            ty,
            def,
            (i - 1) as nat,
            options,
            args,
        ).0
    }
}

/// Whether every variant from `from` up to, but without, `to` fails when it is
/// tried after those before it.
pub open spec fn all_fail(
    schema: &Schema,
    data: Seq<u8>,
    st: State,
    ty: usize,
    def: &EnumDef,
    from: nat,
    to: nat,
    options: ReadOptions,
    args: Seq<i128>,
) -> bool {
    forall|j: nat|
        from <= j < to ==> (#[trigger] attempt_spec(
            schema,
            data,
            state_before(schema, data, st, ty, def, j, options, args),
            ty,
            def,
            j,
            options,
            args,
        )).1 is Err
}

proof fn lemma_search_reaches(
    schema: &Schema,
    data: Seq<u8>,
    st: State,
    ty: usize,
    def: &EnumDef,
    k: nat,
    i: nat,
    errors: Seq<(Seq<char>, ErrorView)>,
    options: ReadOptions,
    args: Seq<i128>,
)
    requires
        k <= i < def.variants@.len(),
        !terminal(def),
        all_fail(schema, data, st, ty, def, k, i, options, args),
        attempt_spec(
            schema,
            data,
            state_before(schema, data, st, ty, def, i, options, args),
            ty,
            def,
            i,
            options,
            args,
        ).1 is Ok,
    ensures
        try_variants_spec(
            schema,
            data,
            state_before(schema, data, st, ty, def, k, options, args),
            ty,
            def,
            k,
            errors,
            options,
            args,
        ) == attempt_spec(
            schema,
            data,
            state_before(schema, data, st, ty, def, i, options, args),
            ty,
            def,
            i,
            options,
            args,
        ),
    decreases i - k,
{
    let here = state_before(schema, data, st, ty, def, k, options, args);
    let (st1, r) = attempt_spec(schema, data, here, ty, def, k, options, args);
    if k < i {
        assert(r is Err);
        assert(state_before(schema, data, st, ty, def, k + 1, options, args) == st1);
        lemma_search_reaches(
            schema,
            data,
            st,
            ty,
            def,
            k + 1,
            i,
            errors.push((def.variants@[k as int].name@, r->Err_0)),
            options,
            args,
        );
    }
}

/// The first variant, in declaration order, that can be read is the one that
/// is chosen: if every variant before the one with index `i` fails and that
/// one can be read, the search ends with the value and in the state of that
/// variant. Nothing is asked of the variants behind it, so one of them that
/// could be read as well changes nothing.
pub proof fn law_first_variant_wins(
    schema: &Schema,
    data: Seq<u8>,
    st: State,
    ty: usize,
    def: &EnumDef,
    i: nat,
    options: ReadOptions,
    args: Seq<i128>,
)
    requires
        i < def.variants@.len(),
        !terminal(def),
        all_fail(schema, data, st, ty, def, 0, i, options, args),
        attempt_spec(
            schema,
            data,
            state_before(schema, data, st, ty, def, i, options, args),
            ty,
            def,
            i,
            options,
            args,
        ).1 is Ok,
    ensures
        try_variants_spec(schema, data, st, ty, def, 0, Seq::empty(), options, args)
            == attempt_spec(
            schema,
            data,
            state_before(schema, data, st, ty, def, i, options, args),
            ty,
            def,
            i,
            options,
            args,
        ),
        state_before(schema, data, st, ty, def, i, options, args).pos == st.pos,
{
    lemma_search_reaches(schema, data, st, ty, def, 0, i, Seq::empty(), options, args);
    lemma_tried_at_start(schema, data, st, ty, def, i, options, args);
}

/// Every variant is tried where the cursor stood when the search began.
pub proof fn lemma_tried_at_start(
    schema: &Schema,
    data: Seq<u8>,
    st: State,
    ty: usize,
    def: &EnumDef,
    i: nat,
    options: ReadOptions,
    args: Seq<i128>,
)
    requires
        all_fail(schema, data, st, ty, def, 0, i, options, args),
    ensures
        state_before(schema, data, st, ty, def, i, options, args).pos == st.pos,
    decreases i,
{
    if i > 0 {
        let j = (i - 1) as nat;
        lemma_tried_at_start(schema, data, st, ty, def, j, options, args);
        assert(attempt_spec(
            schema,
            data,
            state_before(schema, data, st, ty, def, j, options, args),
            ty,
            def,
            j,
            options,
            args,
        ).1 is Err);
    }
}

/// An enum that gives up at once takes its first variant or none: the outcome
/// is that of the first variant if it can be read, and `NoVariantMatch` at the
/// start if not.
pub proof fn law_terminal_search(
    schema: &Schema,
    data: Seq<u8>,
    st: State,
    ty: usize,
    def: &EnumDef,
    options: ReadOptions,
    args: Seq<i128>,
)
    requires
        0 < def.variants@.len(),
        terminal(def),
    ensures
        ({
            let (first, r) = attempt_spec(schema, data, st, ty, def, 0, options, args);
            try_variants_spec(schema, data, st, ty, def, 0, Seq::empty(), options, args) == (
                first,
                match r {
                    Ok(v) => Ok(v),
                    Err(_) => Err(ErrorView::NoVariantMatch { pos: st.pos }),
                },
            )
        }),
{
}

/// The variant found by its discriminant is the first, in declaration order,
/// whose discriminant equals the number; none is found only if none equals
/// it.
pub proof fn law_first_discriminant(variants: Seq<VariantDef>, x: i128, from: nat)
    ensures
        match find_discriminant(variants, x, from) {
            Some(i) => {
                &&& from <= i < variants.len()
                &&& variants[i as int].discriminant == x
                &&& forall|j: int| from <= j < i ==> (#[trigger] variants[j]).discriminant != x
            },
            None => forall|j: int|
                from <= j < variants.len() ==> (#[trigger] variants[j]).discriminant != x,
        },
    decreases variants.len() - from,
{
    if from < variants.len() && variants[from as int].discriminant != x {
        law_first_discriminant(variants, x, from + 1);
    }
}

/// Whether the variant has the magic `x`.
pub open spec fn has_magic(v: &VariantDef, x: i128) -> bool {
    v.attrs.magic is Some && v.attrs.magic->0.value == x
}

/// The variant found by its magic is the first, in declaration order, whose
/// magic equals the number; none is found only if none equals it.
pub proof fn law_first_magic(variants: Seq<VariantDef>, x: i128, from: nat)
    ensures
        match find_magic(variants, x, from) {
            Some(i) => {
                &&& from <= i < variants.len()
                &&& has_magic(&variants[i as int], x)
                &&& forall|j: int| from <= j < i ==> !has_magic(&#[trigger] variants[j], x)
            },
            None => forall|j: int|
                from <= j < variants.len() ==> !has_magic(&#[trigger] variants[j], x),
        },
    decreases variants.len() - from,
{
    if from < variants.len() && !has_magic(&variants[from as int], x) {
        law_first_magic(variants, x, from + 1);
    }
}

/// Assertions are tested in order: they pass only if all hold, and the error
/// is that of the first one that does not hold, with its text and message.
pub proof fn law_assertion_failure_names_text(
    asserts: Seq<Assert>,
    from: nat,
    env: Seq<ValueView>,
    visible: nat,
    args: Seq<i128>,
    pos: u64,
)
    ensures
        match assertions_from(asserts, from, env, visible, args, pos) {
            Ok(_) => forall|i: int|
                from <= i < asserts.len() ==> (#[trigger] asserts[i]).cond.holds(env, visible, args),
            Err(e) => exists|i: int|
                {
                    &&& from <= i < asserts.len()
                    &&& !(#[trigger] asserts[i]).cond.holds(env, visible, args)
                    &&& forall|j: int|
                        from <= j < i ==> (#[trigger] asserts[j]).cond.holds(env, visible, args)
                    &&& e == assertion_error(&asserts[i], pos)
                    &&& e matches ErrorView::AssertionFailure { text, .. } && text == asserts[i].text@
                },
        },
    decreases asserts.len() - from,
{
    if from < asserts.len() {
        if asserts[from as int].cond.holds(env, visible, args) {
            law_assertion_failure_names_text(asserts, from + 1, env, visible, args, pos);
        } else {
            assert(!asserts[from as int].cond.holds(env, visible, args));
        }
    }
}

/// The assertions of a field are tested when the field has been read and
/// mapped, and before anything else is read: they see the mapped value under
/// the index of the field, and if one of them fails, the fields end with its
/// error in the state behind the value of the field. No hook after the
/// assertions and no later field has run; only a field that restores the
/// position is put back where it began.
pub proof fn law_assertion_timing(
    schema: &Schema,
    data: Seq<u8>,
    st: State,
    ty: usize,
    fields: Seq<FieldDirectives>,
    bound: Seq<ValueView>,
    options: ReadOptions,
    args: Seq<i128>,
    mapped: ValueView,
    e: ErrorView,
)
    requires
        bound.len() < fields.len(),
        ({
            let f = &fields[bound.len() as int];
            let visible = bound.len();
            let inner = field_options_spec(options, f, bound, visible, args);
            let passed = field_args_spec(f, bound, visible, args);
            let (st1, r1) = skip_before_spec(st, f, bound, visible, args);
            let (st2, r2) = run_action_spec(schema, data, st1, ty, f, bound, inner, passed, args);
            let raw = if f.do_try {
                Ok(tried(r2))
            } else {
                r2
            };
            &&& f.if_cond is Some ==> f.if_cond->0.holds(bound, visible, args)
            &&& r1 is Ok
            &&& raw is Ok
            &&& apply_map_spec(&f.map, raw->Ok_0, bound, args, st2.pos) == Ok::<
                ValueView,
                ErrorView,
            >(mapped)
            &&& check_assertions_spec(f.assert@, bound.push(mapped), visible + 1, args, st2.pos)
                == Err::<(), ErrorView>(e)
        }),
    ensures
        ({
            let f = &fields[bound.len() as int];
            let visible = bound.len();
            let inner = field_options_spec(options, f, bound, visible, args);
            let passed = field_args_spec(f, bound, visible, args);
            let (st1, r1) = skip_before_spec(st, f, bound, visible, args);
            let (st2, r2) = run_action_spec(schema, data, st1, ty, f, bound, inner, passed, args);
            let end = if f.restore_position {
                State { pos: st.pos, ..st2 }
            } else {
                st2
            };
            read_fields_spec(schema, data, st, ty, fields, bound, options, args) == (
                end,
                Err::<Seq<ValueView>, ErrorView>(e),
            )
        }),
{
    let f = &fields[bound.len() as int];
    let hooks = field_hooks_spec(schema, data, st, ty, f, bound, options, args);
    let field = read_field_spec(schema, data, st, ty, f, bound, options, args);
    assert(hooks.1 == Err::<ValueView, ErrorView>(e));
    assert(field.1 == Err::<ValueView, ErrorView>(e));
}

/// The number of separators that belong to the first `k` of `n` items: one for
/// each item, but none for the last of all items unless separators trail.
pub open spec fn separators_for(k: nat, n: nat, trailing: bool) -> nat {
    if trailing || k < n {
        k
    } else if n == 0 {
        0
    } else {
        (n - 1) as nat
    }
}

/// A list of items with separators that could be read holds as many items as
/// were asked for and the separators that belong to them: one less than the
/// items, or as many where separators trail.
pub proof fn law_separated_counts(
    schema: &Schema,
    data: Seq<u8>,
    st: State,
    item: usize,
    separator: usize,
    trailing: bool,
    options: ReadOptions,
    args: Seq<i128>,
    n: nat,
    items: Seq<ValueView>,
    separators: Seq<ValueView>,
)
    requires
        items.len() <= n,
        separators.len() == separators_for(items.len(), n, trailing),
    ensures
        separated_from(
            schema,
            data,
            st,
            item,
            separator,
            trailing,
            options,
            args,
            n,
            items,
            separators,
        ).1 matches Ok(parts) ==> {
            &&& parts.0.len() == n
            &&& parts.1.len() == separators_for(n, n, trailing)
            &&& items.is_prefix_of(parts.0)
            &&& separators.is_prefix_of(parts.1)
        },
    decreases n - items.len(),
{
    if items.len() < n {
        let (st1, r1) = read_type_spec(schema, data, st, item, options, args);
        if let Ok(v) = r1 {
            if trailing || items.len() + 1 != n {
                let (st2, r2) = read_type_spec(schema, data, st1, separator, options, Seq::empty());
                if let Ok(sep) = r2 {
                    law_separated_counts(
                        schema,
                        data,
                        st2,
                        item,
                        separator,
                        trailing,
                        options,
                        args,
                        n,
                        items.push(v),
                        separators.push(sep),
                    );
                }
            } else {
                law_separated_counts(
                    schema,
                    data,
                    st1,
                    item,
                    separator,
                    trailing,
                    options,
                    args,
                    n,
                    items.push(v),
                    separators,
                );
            }
        }
    }
}

/// Elements that could be read are as many as were asked for, and they follow
/// those read before.
pub proof fn law_elems_count(
    schema: &Schema,
    data: Seq<u8>,
    st: State,
    elem: usize,
    options: ReadOptions,
    args: Seq<i128>,
    n: nat,
    acc: Seq<ValueView>,
)
    requires
        acc.len() <= n,
    ensures
        read_elems_spec(schema, data, st, elem, options, args, n, acc).1 matches Ok(items) ==> {
            &&& items.len() == n
            &&& acc.is_prefix_of(items)
        },
    decreases n - acc.len(),
{
    if acc.len() < n {
        let (st1, r) = read_type_spec(schema, data, st, elem, options, args);
        if let Ok(v) = r {
            law_elems_count(schema, data, st1, elem, options, args, n, acc.push(v));
        }
    }
}

/// Following a pointer never leaves the cursor where the pointer points: a
/// pointer that could be followed leaves the cursor where it stood.
pub proof fn law_followed_pointer_keeps_cursor(
    schema: &Schema,
    data: Seq<u8>,
    st: State,
    ty: usize,
    field_ty: usize,
    value: ValueView,
    inner: ReadOptions,
    passed: Seq<i128>,
)
    ensures
        follow_spec(schema, data, st, ty, field_ty, value, inner, passed).1 is Ok ==> follow_spec(
            schema,
            data,
            st,
            ty,
            field_ty,
            value,
            inner,
            passed,
        ).0.pos == st.pos,
{
}

/// Following the pointers that were put off leaves the cursor where it stood
/// and the number of values as it was, if all of them could be followed.
pub proof fn law_deferred_keeps_cursor(
    schema: &Schema,
    data: Seq<u8>,
    st: State,
    ty: usize,
    fields: Seq<FieldDirectives>,
    k: nat,
    bound: Seq<ValueView>,
    options: ReadOptions,
    args: Seq<i128>,
)
    ensures
        run_deferred_spec(schema, data, st, ty, fields, k, bound, options, args).1 matches Ok(
            linked,
        ) ==> {
            &&& run_deferred_spec(schema, data, st, ty, fields, k, bound, options, args).0.pos
                == st.pos
            &&& linked.len() == bound.len()
        },
    decreases fields.len() - k,
{
    if k < fields.len() && k < bound.len() {
        let f = &fields[k as int];
        let inner = deferred_options_spec(options, f, bound, k, args);
        let passed = field_args_spec(f, bound, k, args);
        let (st1, r) = deferred_link_spec(schema, data, st, ty, f, bound[k as int], inner, passed);
        if let Ok(v) = r {
            assert(st1.pos == st.pos) by {
                match bound[k as int] {
                    ValueView::Present(held) => {
                        law_followed_pointer_keeps_cursor(
                            schema,
                            data,
                            st,
                            ty,
                            f.ty,
                            *held,
                            inner,
                            passed,
                        );
                        match *held {
                            ValueView::Present(deeper) => {
                                law_followed_pointer_keeps_cursor(
                                    schema,
                                    data,
                                    st,
                                    ty,
                                    f.ty,
                                    *deeper,
                                    inner,
                                    passed,
                                );
                            },
                            _ => {},
                        }
                    },
                    _ => {},
                }
                law_followed_pointer_keeps_cursor(
                    schema,
                    data,
                    st,
                    ty,
                    f.ty,
                    bound[k as int],
                    inner,
                    passed,
                );
            }
            law_deferred_keeps_cursor(
                schema,
                data,
                st1,
                ty,
                fields,
                k + 1,
                bound.update(k as int, v),
                options,
                args,
            );
        }
    }
}

/// The number of the first `n` fields that are not temporary.
pub open spec fn count_permanent(fields: Seq<FieldDirectives>, n: nat) -> nat
    decreases n,
{
    if n == 0 || n > fields.len() {
        0
    } else {
        count_permanent(fields, (n - 1) as nat) + if fields[n - 1].temp {
            0nat
        } else {
            1nat
        }
    }
}

/// The result holds one value for each field that is not temporary, and none
/// for a temporary one; where no field is temporary, it holds the values of
/// all fields.
pub proof fn law_temporaries_are_dropped(fields: Seq<FieldDirectives>, env: Seq<ValueView>, n: nat)
    requires
        n <= fields.len(),
        n <= env.len(),
    ensures
        permanent_spec(fields, env, n).len() == count_permanent(fields, n),
        (forall|k: int| 0 <= k < n ==> !(#[trigger] fields[k]).temp) ==> permanent_spec(
            fields,
            env,
            n,
        ) == env.take(n as int),
        n > 0 && !fields[n - 1].temp ==> permanent_spec(fields, env, n).last() == env[n - 1],
        n > 0 && fields[n - 1].temp ==> permanent_spec(fields, env, n) == permanent_spec(
            fields,
            env,
            (n - 1) as nat,
        ),
    decreases n,
{
    if n > 0 {
        law_temporaries_are_dropped(fields, env, (n - 1) as nat);
        if forall|k: int| 0 <= k < n ==> !(#[trigger] fields[k]).temp {
            assert(env.take(n as int) =~= env.take(n - 1).push(env[n - 1]));
        }
    } else {
        assert(env.take(0) =~= Seq::<ValueView>::empty());
    }
}

/// The padding to an alignment is the least number of bytes that brings the
/// position to a multiple of the alignment: it is not negative, it is less
/// than the alignment, and the position behind it is a multiple.
pub proof fn law_align_padding(pos: u64, align: i128)
    requires
        align > 0,
    ensures
        0 <= align_padding(pos, align) < align,
        (pos + align_padding(pos, align)) % (align as int) == 0,
        pos as int % (align as int) == 0 ==> align_padding(pos, align) == 0,
{
    let a = align as int;
    let p = pos as int;
    let r = p % a;
    vstd::arithmetic::div_mod::lemma_fundamental_div_mod(p, a);
    vstd::arithmetic::div_mod::lemma_mod_bound(p, a);
    if r == 0 {
        vstd::arithmetic::div_mod::lemma_mod_self_0(a);
    } else {
        vstd::arithmetic::div_mod::lemma_small_mod((a - r) as nat, a as nat);
        assert(p + (a - r) == a * (p / a + 1)) by (nonlinear_arith)
            requires
                p == a * (p / a) + r,
        ;
        vstd::arithmetic::div_mod::lemma_mod_multiples_basic(p / a + 1, a);
        assert(a * (p / a + 1) == (p / a + 1) * a) by (nonlinear_arith);
    }
}

/// The padding to a size is never negative: it is nothing where as much as
/// the size or more was consumed, and else what is missing.
pub proof fn law_size_padding(start: u64, pos: u64, target: i128)
    ensures
        size_padding(start, pos, target) >= 0,
        pos - start >= target ==> size_padding(start, pos, target) == 0,
        pos - start < target ==> (pos - start) + size_padding(start, pos, target) == target,
{
}

} // verus!
