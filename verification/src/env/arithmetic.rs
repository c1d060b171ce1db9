//! The arithmetic and comparison builtins.

use vstd::prelude::*;
use crate::env::{ArithOp, Environment, Invoke, InvokeV, Operand, Pending, PendingV, Request, RequestV};
use crate::value::{
    Value, ValueV, arity_error, lemma_values_view, msg_pair, pair_error, result_view, value_eq,
    values_view, wrong_count,
};
use crate::{Error, ErrorV};

verus! {

/// The quotient of `x` by `d`, rounded toward zero; `d` is not zero.
pub open spec fn truncated_quotient(x: int, d: int) -> int {
    if x == 0 {
        0
    } else if x > 0 && d > 0 {
        x / d
    } else if x < 0 && d < 0 {
        (x * -1) / (d * -1)
    } else if x < 0 {
        ((x * -1) / d) * -1
    } else {
        (x / (d * -1)) * -1
    }
}

/// The remainder of `x` by `d` that goes with the quotient rounded toward
/// zero: it has the sign of `x`; `d` is not zero.
pub open spec fn truncated_remainder(x: int, d: int) -> int {
    if x == 0 {
        0
    } else if x > 0 && d > 0 {
        x % d
    } else if x < 0 && d < 0 {
        ((x * -1) % (d * -1)) * -1
    } else if x < 0 {
        ((x * -1) % d) * -1
    } else {
        x % (d * -1)
    }
}

/// The exact result of `a op b`; `None` for a division by zero.
pub open spec fn exact_arith(op: ArithOp, a: int, b: int) -> Option<int> {
    match op {
        ArithOp::Add => Some(a + b),
        ArithOp::Sub => Some(a - b),
        ArithOp::Mul => Some(a * b),
        ArithOp::Div => if b == 0 {
            None
        } else {
            Some(truncated_quotient(a, b))
        },
        ArithOp::Rem => if b == 0 {
            None
        } else {
            Some(truncated_remainder(a, b))
        },
    }
}

/// The result of `a op b` on machine integers: the exact result where
/// there is one and it fits the machine word, else `None`.
pub open spec fn int_arith(op: ArithOp, a: isize, b: isize) -> Option<isize> {
    match exact_arith(op, a as int, b as int) {
        Some(r) => if isize::MIN <= r <= isize::MAX && !(op == ArithOp::Rem && a == isize::MIN && b
            == -1) {
            Some(r as isize)
        } else {
            None
        },
        None => None,
    }
}

/// The word that names an operation in an error message.
pub open spec fn op_word(op: ArithOp) -> Seq<char> {
    match op {
        ArithOp::Add => "add"@,
        ArithOp::Sub => "sub"@,
        ArithOp::Mul => "mul"@,
        ArithOp::Div => "div"@,
        ArithOp::Rem => "mod"@,
    }
}

/// What a value is as an operand of arithmetic, if it is a number.
pub open spec fn operand_of(v: ValueV) -> Option<Operand> {
    match v {
        ValueV::Integer(i) => Some(Operand::Integer(i)),
        ValueV::Float(f) => Some(Operand::Float(f.bits)),
        _ => None,
    }
}

/// What a fold ends with: an error value becomes a failure, every other
/// value is the result.
pub open spec fn fold_end(acc: ValueV) -> InvokeV {
    match acc {
        ValueV::Error(e) => InvokeV::Fail(ErrorV::VarEval(e)),
        _ => InvokeV::Value(acc),
    }
}

/// The fold of `op` over `rest`, from the left, with `acc` the result so
/// far. Two integers give an integer, and fail where the result is not a
/// machine integer. A float with a float or an integer is work for the
/// host, whose answer the fold goes on with. Every other pair fails.
pub open spec fn fold_spec(op: ArithOp, acc: ValueV, rest: Seq<ValueV>) -> InvokeV
    decreases rest.len(),
{
    if rest.len() == 0 {
        fold_end(acc)
    } else {
        match (operand_of(acc), operand_of(rest[0])) {
            (Some(Operand::Integer(a)), Some(Operand::Integer(b))) => match int_arith(op, a, b) {
                Some(r) => fold_spec(op, ValueV::Integer(r), rest.drop_first()),
                None => InvokeV::Fail(ErrorV::VarEval(msg_pair(op_word(op), acc, rest[0]))),
            },
            (Some(lhs), Some(rhs)) => InvokeV::Ask(
                RequestV::FloatArith { op, lhs, rhs },
                PendingV::Fold { op, rest: rest.drop_first() },
            ),
            _ => InvokeV::Fail(ErrorV::VarEval(msg_pair(op_word(op), acc, rest[0]))),
        }
    }
}

/// What `+`, `-`, `*` and `/` give: the unit value for no operand, else
/// the fold over the operands from the left.
pub open spec fn arith_spec(op: ArithOp, args: Seq<ValueV>) -> InvokeV {
    if args.len() == 0 {
        InvokeV::Value(ValueV::Unit)
    } else {
        fold_spec(op, args[0], args.drop_first())
    }
}

/// What `mod` gives: the remainder of its two operands.
pub open spec fn mod_spec(args: Seq<ValueV>) -> InvokeV {
    if args.len() != 2 {
        InvokeV::Fail(arity_error(2, args.len()))
    } else {
        fold_spec(ArithOp::Rem, args[0], args.drop_first())
    }
}

/// The integer that stands for a truth value.
pub open spec fn truth(b: bool) -> ValueV {
    ValueV::Integer(
        if b {
            1
        } else {
            0
        },
    )
}

/// What `==` gives: whether its two operands are structurally equal.
pub open spec fn eq_spec(args: Seq<ValueV>) -> Result<ValueV, ErrorV> {
    if args.len() != 2 {
        Err(arity_error(2, args.len()))
    } else {
        Ok(truth(value_eq(args[0], args[1])))
    }
}

/// What `<` (`less` true) and `>` give: the order of two integers.
pub open spec fn order_spec(less: bool, args: Seq<ValueV>) -> Result<ValueV, ErrorV> {
    if args.len() != 2 {
        Err(arity_error(2, args.len()))
    } else {
        match (args[0], args[1]) {
            (ValueV::Integer(a), ValueV::Integer(b)) => Ok(
                truth(
                    if less {
                        a < b
                    } else {
                        a > b
                    },
                ),
            ),
            _ => Err(
                ErrorV::VarEval(
                    msg_pair(
                        if less {
                            "lt"@
                        } else {
                            "gt"@
                        },
                        args[0],
                        args[1],
                    ),
                ),
            ),
        }
    }
}

/// Computes `a op b` on machine integers.
pub fn compute(op: ArithOp, a: isize, b: isize) -> (r: Option<isize>)
    ensures
        r == int_arith(op, a, b),
{
    match op {
        ArithOp::Add => a.checked_add(b),
        ArithOp::Sub => a.checked_sub(b),
        ArithOp::Mul => a.checked_mul(b),
        ArithOp::Div => a.checked_div(b),
        ArithOp::Rem => a.checked_rem(b),
    }
}

/// The word that names `op` in an error message.
pub fn word_of(op: ArithOp) -> (r: &'static str)
    ensures
        r@ == op_word(op),
{
    match op {
        ArithOp::Add => "add",
        ArithOp::Sub => "sub",
        ArithOp::Mul => "mul",
        ArithOp::Div => "div",
        ArithOp::Rem => "mod",
    }
}

/// What `v` is as an operand of arithmetic.
pub fn operand(v: &Value) -> (r: Option<Operand>)
    ensures
        r == operand_of(v@),
{
    match v {
        Value::Integer(i) => Some(Operand::Integer(*i)),
        Value::Float(f) => Some(Operand::Float(f.bits)),
        _ => None,
    }
}

/// Folds `op` over `rest` from the left, with `acc` the result so far, up
/// to the end, a failure, or the first step that is work for the host.
pub fn fold(op: ArithOp, first: Value, items: Vec<Value>) -> (r: Invoke)
    ensures
        r@ == fold_spec(op, first@, values_view(items@)),
{
    let ghost rv = values_view(items@);
    let ghost acc0 = first@;
    let mut acc = first;
    let mut rest = items;
    let n = rest.len();
    let mut i: usize = 0;
    proof {
        lemma_values_view(rest@);
        assert(rv.subrange(0, n as int) =~= rv);
    }
    while i < n
        invariant
            i <= n,
            n == rest.len(),
            rv == values_view(rest@),
            rv == values_view(items@),
            acc0 == first@,
            rv.len() == n,
            forall|j: int| 0 <= j < n ==> rv[j] == rest[j]@,
            fold_spec(op, acc0, rv) == fold_spec(op, acc@, rv.subrange(i as int, n as int)),
        decreases n - i,
    {
        let ghost tail = rv.subrange(i as int, n as int);
        assert(tail[0] == rest[i as int]@);
        assert(tail.drop_first() =~= rv.subrange(i + 1, n as int));
        match (operand(&acc), operand(&rest[i])) {
            (Some(Operand::Integer(a)), Some(Operand::Integer(b))) => {
                match compute(op, a, b) {
                    Some(v) => {
                        acc = Value::Integer(v);
                    },
                    None => {
                        return Invoke::Fail(pair_error(word_of(op), &acc, &rest[i]));
                    },
                }
            },
            (Some(lhs), Some(rhs)) => {
                let after = rest.split_off(i + 1);
                proof {
                    lemma_values_view(after@);
                    assert(values_view(after@) =~= rv.subrange(i + 1, n as int));
                }
                return Invoke::Ask(
                    Request::FloatArith { op, lhs, rhs },
                    Pending::Fold { op, rest: after },
                );
            },
            _ => {
                return Invoke::Fail(pair_error(word_of(op), &acc, &rest[i]));
            },
        }
        i += 1;
    }
    match acc {
        Value::Error(e) => Invoke::Fail(Error::VarEvalError(e)),
        v => Invoke::Value(v),
    }
}

/// Folds `op` over `args`: what `+`, `-`, `*` and `/` do.
pub fn arith(op: ArithOp, args: Vec<Value>) -> (r: Invoke)
    ensures
        r@ == arith_spec(op, values_view(args@)),
{
    let mut args = args;
    proof {
        lemma_values_view(args@);
    }
    if args.len() == 0 {
        return Invoke::Value(Value::Unit);
    }
    let ghost av = values_view(args@);
    let first = args.remove(0);
    proof {
        lemma_values_view(args@);
        assert(values_view(args@) =~= av.drop_first());
    }
    fold(op, first, args)
}

/// `+`: the sum of the operands.
pub struct Add;

impl Add {
    /// Applies the operation to `args`.
    pub fn eval(&self, _env: &Environment, args: Vec<Value>) -> (r: Invoke)
        ensures
            r@ == arith_spec(ArithOp::Add, values_view(args@)),
    {
        arith(ArithOp::Add, args)
    }
}

/// `-`: the first operand less the others.
pub struct Sub;

impl Sub {
    /// Applies the operation to `args`.
    pub fn eval(&self, _env: &Environment, args: Vec<Value>) -> (r: Invoke)
        ensures
            r@ == arith_spec(ArithOp::Sub, values_view(args@)),
    {
        arith(ArithOp::Sub, args)
    }
}

/// `*`: the product of the operands.
pub struct Mul;

impl Mul {
    /// Applies the operation to `args`.
    pub fn eval(&self, _env: &Environment, args: Vec<Value>) -> (r: Invoke)
        ensures
            r@ == arith_spec(ArithOp::Mul, values_view(args@)),
    {
        arith(ArithOp::Mul, args)
    }
}

/// `/`: the first operand divided by the others.
pub struct Div;

impl Div {
    /// Applies the operation to `args`.
    pub fn eval(&self, _env: &Environment, args: Vec<Value>) -> (r: Invoke)
        ensures
            r@ == arith_spec(ArithOp::Div, values_view(args@)),
    {
        arith(ArithOp::Div, args)
    }
}

/// `mod`: the remainder of two operands.
pub struct Mod;

impl Mod {
    /// Applies the operation to `args`.
    pub fn eval(&self, _env: &Environment, args: Vec<Value>) -> (r: Invoke)
        ensures
            r@ == mod_spec(values_view(args@)),
    {
        proof {
            lemma_values_view(args@);
        }
        if args.len() != 2 {
            return Invoke::Fail(wrong_count(2, args.len()));
        }
        arith(ArithOp::Rem, args)
    }
}

/// `==`: structural equality of two operands.
pub struct Eq;

impl Eq {
    /// Applies the operation to `args`.
    pub fn eval(&self, _env: &Environment, args: Vec<Value>) -> (r: Result<Value, Error>)
        ensures
            result_view(r) == eq_spec(values_view(args@)),
    {
        proof {
            lemma_values_view(args@);
        }
        if args.len() != 2 {
            return Err(wrong_count(2, args.len()));
        }
        Ok(Value::bool(args[0].equals(&args[1])))
    }
}

/// Orders the two integers of `args`.
fn order(less: bool, args: Vec<Value>) -> (r: Result<Value, Error>)
    ensures
        result_view(r) == order_spec(less, values_view(args@)),
{
    proof {
        lemma_values_view(args@);
    }
    if args.len() != 2 {
        return Err(wrong_count(2, args.len()));
    }
    match (&args[0], &args[1]) {
        (Value::Integer(a), Value::Integer(b)) => Ok(
            Value::bool(
                if less {
                    *a < *b
                } else {
                    *a > *b
                },
            ),
        ),
        _ => Err(
            pair_error(
                if less {
                    "lt"
                } else {
                    "gt"
                },
                &args[0],
                &args[1],
            ),
        ),
    }
}

/// `<`: whether the first of two integers is the smaller one.
pub struct Lt;

impl Lt {
    /// Applies the operation to `args`.
    pub fn eval(&self, _env: &Environment, args: Vec<Value>) -> (r: Result<Value, Error>)
        ensures
            result_view(r) == order_spec(true, values_view(args@)),
    {
        order(true, args)
    }
}

/// `>`: whether the first of two integers is the greater one.
pub struct Gt;

impl Gt {
    /// Applies the operation to `args`.
    pub fn eval(&self, _env: &Environment, args: Vec<Value>) -> (r: Result<Value, Error>)
        ensures
            result_view(r) == order_spec(false, values_view(args@)),
    {
        order(false, args)
    }
}

} // verus!
