//! The expressions of a schema: integer arithmetic and comparison over the
//! fields already read and the arguments of the type.

use vstd::prelude::*;
use crate::value::{values_view, Value, ValueView};

verus! {

/// A binary operator. Arithmetic wraps around in 128 bits; a comparison gives
/// one or zero; `And` and `Or` take every number but zero for true.
#[derive(Clone, Copy, Debug, PartialEq, Eq, Structural)]
pub enum BinOp {
    Add,
    Sub,
    Mul,
    Eq,
    Ne,
    Lt,
    Le,
    Gt,
    Ge,
    And,
    Or,
}

/// An expression of a schema.
#[derive(Debug, PartialEq, Eq)]
pub enum Expr {
    /// A number.
    Const(i128),
    /// The integer of the field with this index in the type being read. A
    /// field that is not bound yet, or holds no integer, reads as zero.
    Field(usize),
    /// The argument with this index; zero if there is none.
    Arg(usize),
    /// One if the operand is zero, else zero.
    Not(Box<Expr>),
    /// A binary operation.
    Binary(BinOp, Box<Expr>, Box<Expr>),
}

/// One for true, zero for false.
pub open spec fn truth(b: bool) -> i128 {
    if b {
        1
    } else {
        0
    }
}

impl BinOp {
    /// The result of the operator on two numbers.
    pub open spec fn apply_spec(self, a: i128, b: i128) -> i128 {
        match self {
            BinOp::Add => a.wrapping_add(b),
            BinOp::Sub => a.wrapping_sub(b),
            BinOp::Mul => a.wrapping_mul(b),
            BinOp::Eq => truth(a == b),
            BinOp::Ne => truth(a != b),
            BinOp::Lt => truth(a < b),
            BinOp::Le => truth(a <= b),
            BinOp::Gt => truth(a > b),
            BinOp::Ge => truth(a >= b),
            BinOp::And => truth(a != 0 && b != 0),
            BinOp::Or => truth(a != 0 || b != 0),
        }
    }

    /// The result of the operator on two numbers.
    #[verifier::when_used_as_spec(apply_spec)]
    pub fn apply(self, a: i128, b: i128) -> (r: i128)
        ensures
            r == self.apply_spec(a, b),
    {
        match self {
            BinOp::Add => a.wrapping_add(b),
            BinOp::Sub => a.wrapping_sub(b),
            BinOp::Mul => a.wrapping_mul(b),
            BinOp::Eq => if a == b { 1 } else { 0 },
            BinOp::Ne => if a != b { 1 } else { 0 },
            BinOp::Lt => if a < b { 1 } else { 0 },
            BinOp::Le => if a <= b { 1 } else { 0 },
            BinOp::Gt => if a > b { 1 } else { 0 },
            BinOp::Ge => if a >= b { 1 } else { 0 },
            BinOp::And => if a != 0 && b != 0 { 1 } else { 0 },
            BinOp::Or => if a != 0 || b != 0 { 1 } else { 0 },
        }
    }
}

impl Expr {
    /// The value of the expression. `env` holds the values of the fields of the
    /// type being read, of which the first `visible` are in scope; `args` are
    /// the arguments of the type.
    pub open spec fn value(&self, env: Seq<ValueView>, visible: nat, args: Seq<i128>) -> i128
        decreases self,
    {
        match self {
            Expr::Const(c) => *c,
            Expr::Field(i) => if *i < visible && *i < env.len() {
                env[*i as int].as_int()
            } else {
                0
            },
            Expr::Arg(i) => if *i < args.len() {
                args[*i as int]
            } else {
                0
            },
            Expr::Not(e) => truth(e.value(env, visible, args) == 0),
            Expr::Binary(op, a, b) => op.apply(
                a.value(env, visible, args),
                b.value(env, visible, args),
            ),
        }
    }

    /// Whether the expression holds: whether its value is not zero.
    pub open spec fn holds(&self, env: Seq<ValueView>, visible: nat, args: Seq<i128>) -> bool {
        self.value(env, visible, args) != 0
    }

    /// Evaluates the expression over the fields read so far and the arguments.
    pub fn eval(&self, env: &Vec<Value>, visible: usize, args: &Vec<i128>) -> (r: i128)
        ensures
            r == self.value(values_view(env@), visible as nat, args@),
        decreases self,
    {
        match self {
            Expr::Const(c) => *c,
            Expr::Field(i) => if *i < visible && *i < env.len() {
                env[*i].as_int()
            } else {
                0
            },
            Expr::Arg(i) => if *i < args.len() {
                args[*i]
            } else {
                0
            },
            Expr::Not(e) => if e.eval(env, visible, args) == 0 {
                1
            } else {
                0
            },
            Expr::Binary(op, a, b) => {
                let x: i128 = a.eval(env, visible, args);
                let y: i128 = b.eval(env, visible, args);
                op.apply(x, y)
            },
        }
    }

    /// Evaluates the expression to a truth value.
    pub fn test(&self, env: &Vec<Value>, visible: usize, args: &Vec<i128>) -> (b: bool)
        ensures
            b == self.holds(values_view(env@), visible as nat, args@),
    {
        self.eval(env, visible, args) != 0
    }
}

/// The count that a number stands for: the number itself where it is a
/// `usize`, zero below and the largest `usize` above.
pub open spec fn count_of(v: i128) -> usize {
    if v < 0 {
        0
    } else if v > usize::MAX {
        usize::MAX
    } else {
        v as usize
    }
}

/// The count that a number stands for.
pub fn to_count(v: i128) -> (n: usize)
    ensures
        n == count_of(v),
{
    if v < 0 {
        0
    } else if v > usize::MAX as i128 {
        usize::MAX
    } else {
        v as usize
    }
}

/// The displacement that a number stands for: the number itself where it is
/// an `i64`, and else the nearest `i64`.
pub open spec fn offset_of(v: i128) -> i64 {
    if v < i64::MIN {
        i64::MIN
    } else if v > i64::MAX {
        i64::MAX
    } else {
        v as i64
    }
}

/// The displacement that a number stands for.
pub fn to_offset(v: i128) -> (d: i64)
    ensures
        d == offset_of(v),
{
    if v < i64::MIN as i128 {
        i64::MIN
    } else if v > i64::MAX as i128 {
        i64::MAX
    } else {
        v as i64
    }
}

} // verus!
