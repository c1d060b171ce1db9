//! The logical builtins. Truth values are the integers 1 and 0.

use vstd::prelude::*;
use crate::env::arithmetic::truth;
use crate::env::Environment;
use crate::value::{
    Value, ValueV, arity_error, lemma_values_view, msg_one, msg_pair, one_error, pair_error,
    result_view, values_view, wrong_count,
};
use crate::{Error, ErrorV};

verus! {

/// What `not` gives: whether its integer operand is 0.
pub open spec fn not_spec(args: Seq<ValueV>) -> Result<ValueV, ErrorV> {
    if args.len() != 1 {
        Err(arity_error(1, args.len()))
    } else {
        match args[0] {
            ValueV::Integer(v) => Ok(truth(v == 0)),
            _ => Err(ErrorV::VarEval(msg_one("not"@, args[0]))),
        }
    }
}

/// What `and` (`all` true) and `or` give on two integers: whether both
/// are 1, or whether one of them is.
pub open spec fn connective_spec(all: bool, args: Seq<ValueV>) -> Result<ValueV, ErrorV> {
    if args.len() != 2 {
        Err(arity_error(2, args.len()))
    } else {
        match (args[0], args[1]) {
            (ValueV::Integer(a), ValueV::Integer(b)) => Ok(
                truth(
                    if all {
                        a == 1 && b == 1
                    } else {
                        a == 1 || b == 1
                    },
                ),
            ),
            _ => Err(
                ErrorV::VarEval(
                    msg_pair(
                        if all {
                            "and"@
                        } else {
                            "or"@
                        },
                        args[0],
                        args[1],
                    ),
                ),
            ),
        }
    }
}

/// `not`: the negation of a truth value.
pub struct Not;

impl Not {
    /// Applies the operation to `args`.
    pub fn eval(&self, _env: &Environment, args: Vec<Value>) -> (r: Result<Value, Error>)
        ensures
            result_view(r) == not_spec(values_view(args@)),
    {
        proof {
            lemma_values_view(args@);
        }
        if args.len() != 1 {
            return Err(wrong_count(1, args.len()));
        }
        match &args[0] {
            Value::Integer(v) => Ok(Value::bool(*v == 0)),
            e => Err(one_error("not", e)),
        }
    }
}

/// Joins the two truth values of `args`.
fn connective(all: bool, args: Vec<Value>) -> (r: Result<Value, Error>)
    ensures
        result_view(r) == connective_spec(all, values_view(args@)),
{
    proof {
        lemma_values_view(args@);
    }
    if args.len() != 2 {
        return Err(wrong_count(2, args.len()));
    }
    match (&args[0], &args[1]) {
        (Value::Integer(a), Value::Integer(b)) => Ok(
            Value::bool(
                if all {
                    *a == 1 && *b == 1
                } else {
                    *a == 1 || *b == 1
                },
            ),
        ),
        _ => Err(
            pair_error(
                if all {
                    "and"
                } else {
                    "or"
                },
                &args[0],
                &args[1],
            ),
        ),
    }
}

/// `and`: whether both truth values hold.
pub struct And;

impl And {
    /// Applies the operation to `args`.
    pub fn eval(&self, _env: &Environment, args: Vec<Value>) -> (r: Result<Value, Error>)
        ensures
            result_view(r) == connective_spec(true, values_view(args@)),
    {
        connective(true, args)
    }
}

/// `or`: whether one of the truth values holds.
pub struct Or;

impl Or {
    /// Applies the operation to `args`.
    pub fn eval(&self, _env: &Environment, args: Vec<Value>) -> (r: Result<Value, Error>)
        ensures
            result_view(r) == connective_spec(false, values_view(args@)),
    {
        connective(false, args)
    }
}

} // verus!
