//! The moves of the cursor around a field: jumps, padding and alignment.

use vstd::prelude::*;
use crate::directive::FieldDirectives;
use crate::error::{plain_result, BinResult, Error, ErrorView};
use crate::expr::Expr;
use crate::io::{move_to, Reader, State};
use crate::value::{values_view, Value, ValueView};

verus! {

/// What a step leaves behind: the state after it, and its result.
pub type Step<T> = (State, Result<T, ErrorView>);

/// The number of bytes from `pos` to the next multiple of `align`: none if
/// `pos` is a multiple, and none if `align` is not positive.
pub open spec fn align_padding(pos: u64, align: i128) -> int {
    if align <= 0 {
        0
    } else {
        (align - (pos as int) % (align as int)) % (align as int)
    }
}

/// The number of bytes that bring what was consumed since `start` up to
/// `target`: none if as much or more was consumed.
pub open spec fn size_padding(start: u64, pos: u64, target: i128) -> int {
    let consumed = pos - start;
    if consumed < target {
        target - consumed
    } else {
        0
    }
}

/// The number of bytes from `pos` to the next multiple of `align`.
pub fn padding_to_align(pos: u64, align: i128) -> (pad: i128)
    ensures
        pad == align_padding(pos, align),
        0 <= pad,
        align > 0 ==> pad < align,
{
    if align <= 0 {
        0
    } else {
        let rest: i128 = (pos as i128) % align;
        (align - rest) % align
    }
}

/// The number of bytes that bring what was consumed since `start` up to
/// `target`, or nothing where that number is beyond every position.
pub fn padding_to_size(start: u64, pos: u64, target: i128) -> (pad: Option<i128>)
    ensures
        match pad {
            Some(p) => p == size_padding(start, pos, target) && 0 <= p,
            None => size_padding(start, pos, target) > i128::MAX,
        },
{
    let consumed: i128 = pos as i128 - start as i128;
    if consumed < target {
        target.checked_sub(consumed)
    } else {
        Some(0)
    }
}

/// The state after an attempt to put the cursor on `target`.
pub open spec fn moved(st: State, target: int) -> Step<()> {
    let (pos, r) = move_to(st.pos, target);
    (State { pos, ..st }, r)
}

/// A jump to the position that the expression gives, if there is one.
pub open spec fn jump_spec(
    st: State,
    to: Option<Expr>,
    env: Seq<ValueView>,
    visible: nat,
    args: Seq<i128>,
) -> Step<()> {
    match to {
        Some(e) => moved(st, e.value(env, visible, args) as int),
        None => (st, Ok(())),
    }
}

/// A skip of as many bytes as the expression gives, if there is one.
pub open spec fn pad_spec(
    st: State,
    by: Option<Expr>,
    env: Seq<ValueView>,
    visible: nat,
    args: Seq<i128>,
) -> Step<()> {
    match by {
        Some(e) => moved(st, st.pos + e.value(env, visible, args)),
        None => (st, Ok(())),
    }
}

/// A skip to the next multiple of what the expression gives, if there is one.
pub open spec fn align_spec(
    st: State,
    to: Option<Expr>,
    env: Seq<ValueView>,
    visible: nat,
    args: Seq<i128>,
) -> Step<()> {
    match to {
        Some(e) => moved(st, st.pos + align_padding(st.pos, e.value(env, visible, args))),
        None => (st, Ok(())),
    }
}

/// A skip that brings what was consumed since `start` up to what the
/// expression gives, if there is one.
pub open spec fn pad_size_spec(
    st: State,
    to: Option<Expr>,
    start: u64,
    env: Seq<ValueView>,
    visible: nat,
    args: Seq<i128>,
) -> Step<()> {
    match to {
        Some(e) => moved(st, st.pos + size_padding(start, st.pos, e.value(env, visible, args))),
        None => (st, Ok(())),
    }
}

/// The moves before a field is read, in this order: the jump of
/// `seek_before`, the skip of `pad_before`, the skip to the multiple of
/// `align_before`. The first that fails ends them.
#[verifier::opaque]
pub open spec fn skip_before_spec(
    st: State,
    f: &FieldDirectives,
    env: Seq<ValueView>,
    visible: nat,
    args: Seq<i128>,
) -> Step<()> {
    let (st1, r1) = jump_spec(st, f.seek_before, env, visible, args);
    if r1 is Err {
        (st1, r1)
    } else {
        let (st2, r2) = pad_spec(st1, f.pad_before, env, visible, args);
        if r2 is Err {
            (st2, r2)
        } else {
            align_spec(st2, f.align_before, env, visible, args)
        }
    }
}

/// The moves after a field was read, in this order: the skip that fills the
/// field up to `pad_size_to`, counted from `start`, the skip of `pad_after`,
/// the skip to the multiple of `align_after`. The first that fails ends them.
#[verifier::opaque]
pub open spec fn skip_after_spec(
    st: State,
    f: &FieldDirectives,
    start: u64,
    env: Seq<ValueView>,
    visible: nat,
    args: Seq<i128>,
) -> Step<()> {
    let (st1, r1) = pad_size_spec(st, f.pad_size_to, start, env, visible, args);
    if r1 is Err {
        (st1, r1)
    } else {
        let (st2, r2) = pad_spec(st1, f.pad_after, env, visible, args);
        if r2 is Err {
            (st2, r2)
        } else {
            align_spec(st2, f.align_after, env, visible, args)
        }
    }
}

/// The moves around a field change nothing but the position, and what they
/// do follows from the position alone.
pub proof fn lemma_moves_touch_the_position_only(
    st: State,
    st2: State,
    f: &FieldDirectives,
    start: u64,
    env: Seq<ValueView>,
    visible: nat,
    args: Seq<i128>,
)
    requires
        st.pos == st2.pos,
    ensures
        ({
            let (a, r) = skip_before_spec(st, f, env, visible, args);
            let (b, r2) = skip_before_spec(st2, f, env, visible, args);
            r == r2 && a == (State { pos: a.pos, ..st }) && b == (State { pos: a.pos, ..st2 })
        }),
        ({
            let (a, r) = skip_after_spec(st, f, start, env, visible, args);
            let (b, r2) = skip_after_spec(st2, f, start, env, visible, args);
            r == r2 && a == (State { pos: a.pos, ..st }) && b == (State { pos: a.pos, ..st2 })
        }),
{
    reveal(skip_before_spec);
    reveal(skip_after_spec);
}

/// Jumps to the position that the expression gives, if there is one.
pub fn jump(
    reader: &mut Reader,
    to: &Option<Expr>,
    env: &Vec<Value>,
    visible: usize,
    args: &Vec<i128>,
) -> (r: BinResult<()>)
    ensures
        final(reader).bytes() == old(reader).bytes(),
        (final(reader).state(), plain_result(r)) == jump_spec(
            old(reader).state(),
            *to,
            values_view(env@),
            visible as nat,
            args@,
        ),
{
    match to {
        Some(e) => {
            let target: i128 = e.eval(env, visible, args);
            reader.source.seek_to(target)
        },
        None => Ok(()),
    }
}

/// Skips as many bytes as the expression gives, if there is one.
pub fn pad(
    reader: &mut Reader,
    by: &Option<Expr>,
    env: &Vec<Value>,
    visible: usize,
    args: &Vec<i128>,
) -> (r: BinResult<()>)
    ensures
        final(reader).bytes() == old(reader).bytes(),
        (final(reader).state(), plain_result(r)) == pad_spec(
            old(reader).state(),
            *by,
            values_view(env@),
            visible as nat,
            args@,
        ),
{
    match by {
        Some(e) => {
            let delta: i128 = e.eval(env, visible, args);
            reader.source.skip(delta)
        },
        None => Ok(()),
    }
}

/// Skips to the next multiple of what the expression gives, if there is one.
pub fn align(
    reader: &mut Reader,
    to: &Option<Expr>,
    env: &Vec<Value>,
    visible: usize,
    args: &Vec<i128>,
) -> (r: BinResult<()>)
    ensures
        final(reader).bytes() == old(reader).bytes(),
        (final(reader).state(), plain_result(r)) == align_spec(
            old(reader).state(),
            *to,
            values_view(env@),
            visible as nat,
            args@,
        ),
{
    match to {
        Some(e) => {
            let unit: i128 = e.eval(env, visible, args);
            let delta: i128 = padding_to_align(reader.source.pos(), unit);
            reader.source.skip(delta)
        },
        None => Ok(()),
    }
}

/// Skips what brings the bytes consumed since `start` up to what the
/// expression gives, if there is one.
pub fn pad_size(
    reader: &mut Reader,
    to: &Option<Expr>,
    start: u64,
    env: &Vec<Value>,
    visible: usize,
    args: &Vec<i128>,
) -> (r: BinResult<()>)
    ensures
        final(reader).bytes() == old(reader).bytes(),
        (final(reader).state(), plain_result(r)) == pad_size_spec(
            old(reader).state(),
            *to,
            start,
            values_view(env@),
            visible as nat,
            args@,
        ),
{
    match to {
        Some(e) => {
            let target: i128 = e.eval(env, visible, args);
            match padding_to_size(start, reader.source.pos(), target) {
                Some(delta) => reader.source.skip(delta),
                None => Err(Error::IoFailure { pos: reader.source.pos() }),
            }
        },
        None => Ok(()),
    }
}

/// Makes the moves that stand before a field.
pub fn skip_before(
    reader: &mut Reader,
    f: &FieldDirectives,
    env: &Vec<Value>,
    visible: usize,
    args: &Vec<i128>,
) -> (r: BinResult<()>)
    ensures
        final(reader).bytes() == old(reader).bytes(),
        (final(reader).state(), plain_result(r)) == skip_before_spec(
            old(reader).state(),
            f,
            values_view(env@),
            visible as nat,
            args@,
        ),
{
    proof {
        reveal(skip_before_spec);
    }
    match jump(reader, &f.seek_before, env, visible, args) {
        Err(e) => {
            return Err(e);
        },
        Ok(()) => {},
    }
    match pad(reader, &f.pad_before, env, visible, args) {
        Err(e) => {
            return Err(e);
        },
        Ok(()) => {},
    }
    align(reader, &f.align_before, env, visible, args)
}

/// Makes the moves that stand after a field, which began at `start`.
pub fn skip_after(
    reader: &mut Reader,
    f: &FieldDirectives,
    start: u64,
    env: &Vec<Value>,
    visible: usize,
    args: &Vec<i128>,
) -> (r: BinResult<()>)
    ensures
        final(reader).bytes() == old(reader).bytes(),
        (final(reader).state(), plain_result(r)) == skip_after_spec(
            old(reader).state(),
            f,
            start,
            values_view(env@),
            visible as nat,
            args@,
        ),
{
    proof {
        reveal(skip_after_spec);
    }
    match pad_size(reader, &f.pad_size_to, start, env, visible, args) {
        Err(e) => {
            return Err(e);
        },
        Ok(()) => {},
    }
    match pad(reader, &f.pad_after, env, visible, args) {
        Err(e) => {
            return Err(e);
        },
        Ok(()) => {},
    }
    align(reader, &f.align_after, env, visible, args)
}

} // verus!
