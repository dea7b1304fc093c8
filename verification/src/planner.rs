//! The steps of reading one field that stand beside the read itself: the
//! options and arguments handed down, the magic, assertions and mapping.

use vstd::prelude::*;
use vstd::string::StringExecFns;
use crate::directive::{Assert, CondEndian, FieldDirectives, Magic, Mapping, TypeDirectives};
use crate::endian::Endian;
use crate::error::{plain_result, text_view, BinResult, Error, ErrorView};
use crate::expr::{count_of, offset_of, to_count, to_offset};
use crate::io::{read_int_at, Reader, State};
use crate::options::{copy_name, ReadOptions};
use crate::schema::TypeDef;
use crate::skips::Step;
use crate::trace::{logged, EventView, TraceEvent};
use crate::value::{values_view, Value, ValueView};

verus! {

/// The other of the two fixed byte orders.
pub open spec fn opposite_spec(e: Endian) -> Endian {
    match e {
        Endian::Big => Endian::Little,
        Endian::Little => Endian::Big,
        Endian::Native => Endian::Native,
    }
}

/// The other of the two fixed byte orders.
#[verifier::when_used_as_spec(opposite_spec)]
pub fn opposite(e: Endian) -> (o: Endian)
    ensures
        o == opposite_spec(e),
{
    match e {
        Endian::Big => Endian::Little,
        Endian::Little => Endian::Big,
        Endian::Native => Endian::Native,
    }
}

/// The byte order of a type or variant: its own where it names one, else the
/// one it was given.
pub open spec fn override_endian(given: Endian, own: Endian) -> Endian {
    if own == Endian::Native {
        given
    } else {
        own
    }
}

/// The byte order that the directives of a type and of one of its variants
/// name together: that of the variant where it names one, else that of the
/// type.
pub open spec fn merged_endian_spec(top: &TypeDirectives, variant: Option<&TypeDirectives>) -> Endian {
    match variant {
        Some(v) => override_endian(top.endian, v.endian),
        None => top.endian,
    }
}

/// The byte order that the directives of a type and of one of its variants
/// name together.
pub fn merged_endian(top: &TypeDirectives, variant: Option<&TypeDirectives>) -> (e: Endian)
    ensures
        e == merged_endian_spec(top, variant),
{
    match variant {
        Some(v) => match v.endian {
            Endian::Native => top.endian,
            _ => v.endian,
        },
        None => top.endian,
    }
}

/// The magic that the directives of a type and of one of its variants name
/// together: that of the variant where it has one, else that of the type.
pub open spec fn merged_magic_spec(top: &TypeDirectives, variant: Option<&TypeDirectives>) -> Option<
    Magic,
> {
    match variant {
        Some(v) => if v.magic is Some {
            v.magic
        } else {
            top.magic
        },
        None => top.magic,
    }
}

/// The magic that the directives of a type and of one of its variants name
/// together.
pub fn merged_magic<'a>(top: &'a TypeDirectives, variant: Option<&'a TypeDirectives>) -> (m: &'a Option<
    Magic,
>)
    ensures
        *m == merged_magic_spec(top, variant),
{
    match variant {
        Some(v) => if v.magic.is_some() {
            &v.magic
        } else {
            &top.magic
        },
        None => &top.magic,
    }
}

/// The options inside a type or variant that names the byte order `own`.
pub open spec fn type_options_spec(options: ReadOptions, own: Endian) -> ReadOptions {
    options.with_endian(override_endian(options.endian, own))
}

/// The options inside a type or variant that names the byte order `own`.
pub fn type_options(options: &ReadOptions, own: Endian) -> (inner: ReadOptions)
    ensures
        inner == type_options_spec(*options, own),
{
    let mut inner = options.copy();
    match own {
        Endian::Native => {},
        _ => {
            inner.endian = own;
        },
    }
    inner
}

/// The byte order of a field under the order `given`: a fixed order of its
/// own; or, by a condition, the order named if it holds and the opposite one
/// if not; or the order given, where the field names the native one. No
/// field of a schema names the native order in a condition (see
/// [`CondEndian::valid_spec`]); such a condition would leave the order given.
pub open spec fn field_endian(
    given: Endian,
    own: CondEndian,
    env: Seq<ValueView>,
    visible: nat,
    args: Seq<i128>,
) -> Endian {
    match own {
        CondEndian::Fixed(e) => override_endian(given, e),
        CondEndian::Cond(e, cond) => if e == Endian::Native {
            given
        } else if cond.holds(env, visible, args) {
            e
        } else {
            opposite(e)
        },
    }
}

/// The options that the read of a field receives: those of the enclosing
/// type, with the field's byte order, count and offset in place of the ones
/// given where the field names them, and with the field's name as trace name.
pub open spec fn field_options_spec(
    options: ReadOptions,
    f: &FieldDirectives,
    env: Seq<ValueView>,
    visible: nat,
    args: Seq<i128>,
) -> ReadOptions {
    ReadOptions {
        endian: field_endian(options.endian, f.endian, env, visible, args),
        count: match f.count {
            Some(e) => Some(count_of(e.value(env, visible, args))),
            None => options.count,
        },
        offset: match f.offset {
            Some(e) => Some(offset_of(e.value(env, visible, args))),
            None => options.offset,
        },
        variable_name: Some(f.name),
    }
}

/// The options with which the pointer of a field is followed after the last
/// field was read: those of [`field_options_spec`], but with the offset of
/// `offset_after`, which sees every field, where the field names one.
pub open spec fn deferred_options_spec(
    options: ReadOptions,
    f: &FieldDirectives,
    env: Seq<ValueView>,
    visible: nat,
    args: Seq<i128>,
) -> ReadOptions {
    let at_field = field_options_spec(options, f, env, visible, args);
    match f.offset_after {
        Some(e) => ReadOptions { offset: Some(offset_of(e.value(env, env.len(), args))), ..at_field },
        None => at_field,
    }
}

/// Makes the options that the read of a field receives. The byte order of
/// the field must be one that can stand on a field.
pub fn field_options(
    options: &ReadOptions,
    f: &FieldDirectives,
    env: &Vec<Value>,
    visible: usize,
    args: &Vec<i128>,
) -> (inner: ReadOptions)
    requires
        f.endian.valid(),
    ensures
        inner == field_options_spec(*options, f, values_view(env@), visible as nat, args@),
{
    let endian = match &f.endian {
        CondEndian::Fixed(e) => match e {
            Endian::Native => options.endian,
            _ => *e,
        },
        CondEndian::Cond(e, cond) => match e {
            Endian::Native => options.endian,
            _ => if cond.test(env, visible, args) {
                *e
            } else {
                opposite(*e)
            },
        },
    };
    let count = match &f.count {
        Some(e) => Some(to_count(e.eval(env, visible, args))),
        None => options.count,
    };
    let offset = match &f.offset {
        Some(e) => Some(to_offset(e.eval(env, visible, args))),
        None => options.offset,
    };
    ReadOptions { endian, count, offset, variable_name: Some(f.name.clone()) }
}

/// Makes the options with which the pointer of a field is followed after the
/// last field was read. The byte order of the field must be one that can
/// stand on a field.
pub fn deferred_options(
    options: &ReadOptions,
    f: &FieldDirectives,
    env: &Vec<Value>,
    visible: usize,
    args: &Vec<i128>,
) -> (inner: ReadOptions)
    requires
        f.endian.valid(),
    ensures
        inner == deferred_options_spec(*options, f, values_view(env@), visible as nat, args@),
{
    let mut inner = field_options(options, f, env, visible, args);
    match &f.offset_after {
        Some(e) => {
            inner.offset = Some(to_offset(e.eval(env, env.len(), args)));
        },
        None => {},
    }
    inner
}

/// The arguments that the read of a field receives: the values of the
/// expressions that the field passes.
pub open spec fn field_args_spec(
    f: &FieldDirectives,
    env: Seq<ValueView>,
    visible: nat,
    args: Seq<i128>,
) -> Seq<i128> {
    Seq::new(f.args@.len(), |i: int| f.args@[i].value(env, visible, args))
}

/// Computes the arguments that the read of a field receives.
pub fn field_args(f: &FieldDirectives, env: &Vec<Value>, visible: usize, args: &Vec<i128>) -> (passed: Vec<
    i128,
>)
    ensures
        passed@ == field_args_spec(f, values_view(env@), visible as nat, args@),
{
    let mut passed: Vec<i128> = Vec::new();
    let mut i: usize = 0;
    while i < f.args.len()
        invariant
            i <= f.args@.len(),
            passed@.len() == i,
            forall|j: int|
                0 <= j < i ==> passed@[j] == f.args@[j].value(
                    values_view(env@),
                    visible as nat,
                    args@,
                ),
        decreases f.args@.len() - i,
    {
        let v: i128 = f.args[i].eval(env, visible, args);
        passed.push(v);
        i = i + 1;
    }
    assert(passed@ =~= field_args_spec(f, values_view(env@), visible as nat, args@));
    passed
}

/// The error of an assertion that failed while the cursor stood at `pos`: it
/// carries the text and the message of the assertion.
pub open spec fn assertion_error(a: &Assert, pos: u64) -> ErrorView {
    ErrorView::AssertionFailure { pos, text: a.text@, message: text_view(a.message) }
}

/// The outcome of the assertions from index `from` on: the error of the first
/// that does not hold, if any.
pub open spec fn assertions_from(
    asserts: Seq<Assert>,
    from: nat,
    env: Seq<ValueView>,
    visible: nat,
    args: Seq<i128>,
    pos: u64,
) -> Result<(), ErrorView>
    decreases asserts.len() - from,
{
    if from >= asserts.len() {
        Ok(())
    } else if !asserts[from as int].cond.holds(env, visible, args) {
        Err(assertion_error(&asserts[from as int], pos))
    } else {
        assertions_from(asserts, from + 1, env, visible, args, pos)
    }
}

/// The outcome of a list of assertions, tested in order while the cursor
/// stands at `pos`.
pub open spec fn check_assertions_spec(
    asserts: Seq<Assert>,
    env: Seq<ValueView>,
    visible: nat,
    args: Seq<i128>,
    pos: u64,
) -> Result<(), ErrorView> {
    assertions_from(asserts, 0, env, visible, args, pos)
}

/// Tests a list of assertions in order.
pub fn check_assertions(
    asserts: &Vec<Assert>,
    env: &Vec<Value>,
    visible: usize,
    args: &Vec<i128>,
    pos: u64,
) -> (r: BinResult<()>)
    ensures
        plain_result(r) == check_assertions_spec(
            asserts@,
            values_view(env@),
            visible as nat,
            args@,
            pos,
        ),
{
    let mut i: usize = 0;
    while i < asserts.len()
        invariant
            i <= asserts@.len(),
            check_assertions_spec(asserts@, values_view(env@), visible as nat, args@, pos)
                == assertions_from(asserts@, i as nat, values_view(env@), visible as nat, args@, pos),
        decreases asserts@.len() - i,
    {
        let a = &asserts[i];
        if !a.cond.test(env, visible, args) {
            return Err(
                Error::AssertionFailure {
                    pos,
                    text: a.text.clone(),
                    message: copy_name(&a.message),
                },
            );
        }
        i = i + 1;
    }
    Ok(())
}

/// The outcome of the magic, if there is one: a number of its type is read in
/// the given byte order; a number that cannot be read fails as the read does,
/// and another number than the magic fails as an assertion, at the position
/// where the magic began and with the text of the magic.
pub open spec fn check_magic_spec(data: Seq<u8>, st: State, magic: Option<Magic>, endian: Endian) -> Step<
    (),
> {
    match magic {
        None => (st, Ok(())),
        Some(m) => {
            let (pos, r) = read_int_at(data, st.pos, m.ty, endian);
            let after = State { pos, ..st };
            match r {
                Err(e) => (after, Err(e)),
                Ok(found) => if found == m.value {
                    (after, Ok(()))
                } else {
                    (
                        after,
                        Err(ErrorView::AssertionFailure { pos: st.pos, text: m.text@, message: None }),
                    )
                },
            }
        },
    }
}

/// Reads the magic, if there is one, and compares.
pub fn check_magic(reader: &mut Reader, magic: &Option<Magic>, endian: Endian) -> (r: BinResult<()>)
    ensures
        final(reader).bytes() == old(reader).bytes(),
        (final(reader).state(), plain_result(r)) == check_magic_spec(
            old(reader).bytes(),
            old(reader).state(),
            *magic,
            endian,
        ),
{
    match magic {
        None => Ok(()),
        Some(m) => {
            let start: u64 = reader.source.pos();
            match reader.source.read_int_in(m.ty, endian) {
                Err(e) => Err(e),
                Ok(found) => if found == m.value {
                    Ok(())
                } else {
                    Err(Error::AssertionFailure { pos: start, text: m.text.clone(), message: None })
                },
            }
        },
    }
}

/// The value after the mapping of a field. The expressions of the mapping see
/// the fields read before and, under the field's own index, the value just
/// read. A mapping that rejects fails at `pos` with its cause.
pub open spec fn apply_map_spec(
    map: &Mapping,
    raw: ValueView,
    env: Seq<ValueView>,
    args: Seq<i128>,
    pos: u64,
) -> Result<ValueView, ErrorView> {
    let seen = env.push(raw);
    match map {
        Mapping::Keep => Ok(raw),
        Mapping::Replace(e) => Ok(ValueView::Int(e.value(seen, seen.len(), args))),
        Mapping::Try(t) => if t.valid.holds(seen, seen.len(), args) {
            Ok(ValueView::Int(t.value.value(seen, seen.len(), args)))
        } else {
            Err(ErrorView::CustomMapError { pos, cause: t.cause@ })
        },
    }
}

/// Applies the mapping of a field to the value just read. `env` holds the
/// fields read before and is the same after the call.
pub fn apply_map(map: &Mapping, raw: Value, env: &mut Vec<Value>, args: &Vec<i128>, pos: u64) -> (r:
    BinResult<Value>)
    ensures
        final(env)@ == old(env)@,
        crate::value::outcome_view(r) == apply_map_spec(
            map,
            raw@,
            values_view(old(env)@),
            args@,
            pos,
        ),
{
    match map {
        Mapping::Keep => Ok(raw),
        Mapping::Replace(e) => {
            env.push(raw);
            proof {
                crate::value::lemma_values_view_push(old(env)@, raw);
            }
            let v: i128 = e.eval(env, env.len(), args);
            env.pop();
            assert(env@ =~= old(env)@);
            Ok(Value::Int(v))
        },
        Mapping::Try(t) => {
            env.push(raw);
            proof {
                crate::value::lemma_values_view_push(old(env)@, raw);
            }
            let valid = t.valid.test(env, env.len(), args);
            let v: i128 = t.value.eval(env, env.len(), args);
            env.pop();
            assert(env@ =~= old(env)@);
            if valid {
                Ok(Value::Int(v))
            } else {
                Err(Error::CustomMapError { pos, cause: t.cause.clone() })
            }
        },
    }
}

/// The fields that a value holds: those of a record or of a variant, and none
/// of any other value.
pub open spec fn fields_of(value: ValueView) -> Seq<ValueView> {
    match value {
        ValueView::Record { fields, .. } => fields,
        ValueView::Variant { fields, .. } => fields,
        _ => Seq::empty(),
    }
}

/// The value after the mapping of a type. The expressions of the mapping see
/// the fields that the value holds, by their index in the value. A mapping
/// that rejects fails at `pos` with its cause.
pub open spec fn apply_type_map_spec(map: &Mapping, value: ValueView, args: Seq<i128>, pos: u64) -> Result<
    ValueView,
    ErrorView,
> {
    let seen = fields_of(value);
    match map {
        Mapping::Keep => Ok(value),
        Mapping::Replace(e) => Ok(ValueView::Int(e.value(seen, seen.len(), args))),
        Mapping::Try(t) => if t.valid.holds(seen, seen.len(), args) {
            Ok(ValueView::Int(t.value.value(seen, seen.len(), args)))
        } else {
            Err(ErrorView::CustomMapError { pos, cause: t.cause@ })
        },
    }
}

/// Evaluates a mapping that replaces or rejects over the fields that a value
/// holds.
fn map_fields(map: &Mapping, fields: &Vec<Value>, args: &Vec<i128>, pos: u64) -> (r: BinResult<Value>)
    requires
        map.is_some(),
    ensures
        crate::value::outcome_view(r) == match map {
            Mapping::Keep => Ok(ValueView::Unit),
            Mapping::Replace(e) => Ok(
                ValueView::Int(e.value(values_view(fields@), fields@.len(), args@)),
            ),
            Mapping::Try(t) => if t.valid.holds(values_view(fields@), fields@.len(), args@) {
                Ok(ValueView::Int(t.value.value(values_view(fields@), fields@.len(), args@)))
            } else {
                Err(ErrorView::CustomMapError { pos, cause: t.cause@ })
            },
        },
{
    match map {
        Mapping::Keep => Ok(Value::Unit),
        Mapping::Replace(e) => Ok(Value::Int(e.eval(fields, fields.len(), args))),
        Mapping::Try(t) => if t.valid.test(fields, fields.len(), args) {
            Ok(Value::Int(t.value.eval(fields, fields.len(), args)))
        } else {
            Err(Error::CustomMapError { pos, cause: t.cause.clone() })
        },
    }
}

/// Applies the mapping of a type to the value that was read.
pub fn apply_type_map(map: &Mapping, value: Value, args: &Vec<i128>, pos: u64) -> (r: BinResult<Value>)
    ensures
        crate::value::outcome_view(r) == apply_type_map_spec(map, value@, args@, pos),
{
    if !map.is_some() {
        return Ok(value);
    }
    match &value {
        Value::Record { ty, fields } => {
            proof {
                crate::value::lemma_record_view(*ty, *fields);
            }
            map_fields(map, fields, args, pos)
        },
        Value::Variant { ty, index, fields } => {
            proof {
                crate::value::lemma_variant_view(*ty, *index, *fields);
            }
            map_fields(map, fields, args, pos)
        },
        _ => {
            let none: Vec<Value> = Vec::new();
            assert(values_view(none@) =~= Seq::<ValueView>::empty());
            map_fields(map, &none, args, pos)
        },
    }
}

/// The value of a field that is read by default: zero for a number, the empty
/// list for an array or list, and nothing for any other type.
pub open spec fn default_value_spec(def: &TypeDef) -> ValueView {
    match def {
        TypeDef::Int(_) => ValueView::Int(0),
        TypeDef::Array { .. } => ValueView::List(Seq::empty()),
        TypeDef::List { .. } => ValueView::List(Seq::empty()),
        _ => ValueView::Unit,
    }
}

/// The value of a field that is read by default.
pub fn default_value(def: &TypeDef) -> (v: Value)
    ensures
        v@ == default_value_spec(def),
{
    match def {
        TypeDef::Int(_) => Value::Int(0),
        TypeDef::Array { .. } | TypeDef::List { .. } => {
            let items: Vec<Value> = Vec::new();
            proof {
                crate::value::lemma_list_view(items);
                assert(values_view(items@) =~= Seq::<ValueView>::empty());
            }
            Value::List(items)
        },
        _ => Value::Unit,
    }
}

/// The values that make up the result: of the first `n` fields, those that
/// are not temporary, in declaration order.
pub open spec fn permanent_spec(fields: Seq<FieldDirectives>, env: Seq<ValueView>, n: nat) -> Seq<
    ValueView,
>
    decreases n,
{
    if n == 0 || n > fields.len() || n > env.len() {
        Seq::empty()
    } else {
        let before = permanent_spec(fields, env, (n - 1) as nat);
        if fields[n - 1].temp {
            before
        } else {
            before.push(env[n - 1])
        }
    }
}

/// Collects the values of the fields that are not temporary. There is
/// nothing to collect where fewer values than fields are given.
pub fn permanent(fields: &Vec<FieldDirectives>, env: &Vec<Value>) -> (kept: Vec<Value>)
    ensures
        values_view(kept@) == permanent_spec(fields@, values_view(env@), fields@.len()),
{
    let mut kept: Vec<Value> = Vec::new();
    let mut k: usize = 0;
    assert(values_view(kept@) =~= Seq::<ValueView>::empty());
    if env.len() < fields.len() {
        return kept;
    }
    while k < fields.len()
        invariant
            k <= fields@.len(),
            fields@.len() <= env@.len(),
            values_view(kept@) == permanent_spec(fields@, values_view(env@), k as nat),
        decreases fields@.len() - k,
    {
        if !fields[k].temp {
            let v = env[k].deep_clone();
            proof {
                crate::value::lemma_values_view_push(kept@, v);
            }
            kept.push(v);
        }
        k = k + 1;
    }
    kept
}

/// The state after a type was read: the trace has received the description of
/// the failure, if the read failed, and then the end of the type under the
/// trace name of the options. The description stands behind the word
/// "Error: ".
pub open spec fn finish_spec<T>(st: State, r: Result<T, ErrorView>, name: Option<String>) -> State {
    let noted = match r {
        Err(e) => logged(st.tracing, st.log, EventView::Comment("Error: "@ + e.describe())),
        Ok(_) => st.log,
    };
    State { log: logged(st.tracing, noted, EventView::EndType(text_view(name))), ..st }
}

/// The state after the trace was told that the named type begins.
pub open spec fn start_spec(st: State, name: Seq<char>) -> State {
    State { log: logged(st.tracing, st.log, EventView::StartType(name)), ..st }
}

/// Tells the trace that the named type begins.
pub fn start(reader: &mut Reader, name: &String)
    ensures
        final(reader).bytes() == old(reader).bytes(),
        final(reader).state() == start_spec(old(reader).state(), name@),
{
    if reader.trace.records() {
        reader.trace.emit(TraceEvent::StartType(name.clone()));
    }
}

/// Tells the trace how the read of a type ended.
pub fn finish(reader: &mut Reader, failure: Option<&Error>, name: &Option<String>)
    ensures
        final(reader).bytes() == old(reader).bytes(),
        final(reader).state() == finish_spec::<()>(
            old(reader).state(),
            match failure {
                Some(e) => Err(e@),
                None => Ok(()),
            },
            *name,
        ),
{
    if reader.trace.records() {
        match failure {
            Some(e) => {
                let mut text = String::from_str("Error: ");
                let described = e.describe();
                text.append(described.as_str());
                reader.trace.emit(TraceEvent::Comment(text));
            },
            None => {},
        }
        reader.trace.emit(TraceEvent::EndType(copy_name(name)));
    }
}

} // verus!
