//! The list builtins.

use vstd::prelude::*;
use vstd::utf8::encode_utf8;
use crate::env::arithmetic::truth;
use crate::env::Environment;
use crate::value::{
    Value, ValueV, arity_error, lemma_values_view, msg_one, one_error, result_view, values_view,
    wrong_count,
};
use crate::{Error, ErrorV};

verus! {

/// What `begin` gives: its last operand, or the unit value for none.
pub open spec fn begin_spec(args: Seq<ValueV>) -> Result<ValueV, ErrorV> {
    if args.len() == 0 {
        Ok(ValueV::Unit)
    } else {
        Ok(args.last())
    }
}

/// What `list` gives: the list of its operands.
pub open spec fn list_spec(args: Seq<ValueV>) -> Result<ValueV, ErrorV> {
    Ok(ValueV::List(args))
}

/// What `car` gives: the first item of a list that has one.
pub open spec fn car_spec(args: Seq<ValueV>) -> Result<ValueV, ErrorV> {
    if args.len() != 1 {
        Err(arity_error(1, args.len()))
    } else {
        match args[0] {
            ValueV::List(l) => if l.len() > 0 {
                Ok(l[0])
            } else {
                Err(ErrorV::VarEval(msg_one("car"@, args[0])))
            },
            _ => Err(ErrorV::VarEval(msg_one("car"@, args[0]))),
        }
    }
}

/// What `cdr` gives: a list without its first item; the empty list stays
/// empty.
pub open spec fn cdr_spec(args: Seq<ValueV>) -> Result<ValueV, ErrorV> {
    if args.len() != 1 {
        Err(arity_error(1, args.len()))
    } else {
        match args[0] {
            ValueV::List(l) => if l.len() > 0 {
                Ok(ValueV::List(l.drop_first()))
            } else {
                Ok(ValueV::List(l))
            },
            _ => Err(ErrorV::VarEval(msg_one("cdr"@, args[0]))),
        }
    }
}

/// What `cons` gives: the list with the first operand put before the
/// items of the second; the unit value counts as the empty list.
pub open spec fn cons_spec(args: Seq<ValueV>) -> Result<ValueV, ErrorV> {
    if args.len() != 2 {
        Err(arity_error(2, args.len()))
    } else {
        match args[1] {
            ValueV::List(l) => Ok(ValueV::List(seq![args[0]] + l)),
            ValueV::Unit => Ok(ValueV::List(seq![args[0]])),
            _ => Err(ErrorV::VarEval(msg_one("cons"@, args[1]))),
        }
    }
}

/// The length of a value that has one: 0 for the unit value, the number
/// of bytes of a string in UTF-8, the number of items of a list.
pub open spec fn length_of(v: ValueV) -> Option<nat> {
    match v {
        ValueV::Unit => Some(0),
        ValueV::String(s) => Some(encode_utf8(s).len()),
        ValueV::List(l) => Some(l.len()),
        _ => None,
    }
}

/// What `length` gives: the length of its operand as an integer.
pub open spec fn length_spec(args: Seq<ValueV>) -> Result<ValueV, ErrorV> {
    if args.len() != 1 {
        Err(arity_error(1, args.len()))
    } else {
        match length_of(args[0]) {
            Some(n) => if n <= isize::MAX {
                Ok(ValueV::Integer(n as isize))
            } else {
                Err(ErrorV::VarEval(msg_one("length"@, args[0])))
            },
            None => Err(ErrorV::VarEval(msg_one("length"@, args[0]))),
        }
    }
}

/// What `endp` gives: whether a list is empty.
pub open spec fn endp_spec(args: Seq<ValueV>) -> Result<ValueV, ErrorV> {
    if args.len() != 1 {
        Err(arity_error(1, args.len()))
    } else {
        match args[0] {
            ValueV::List(l) => Ok(truth(l.len() == 0)),
            _ => Err(ErrorV::VarEval(msg_one("endp"@, args[0]))),
        }
    }
}

/// `begin`: the last of the operands, which were evaluated in order.
pub struct Begin;

impl Begin {
    /// Applies the operation to `args`.
    pub fn eval(&self, _env: &Environment, args: Vec<Value>) -> (r: Result<Value, Error>)
        ensures
            result_view(r) == begin_spec(values_view(args@)),
    {
        let mut args = args;
        proof {
            lemma_values_view(args@);
        }
        match args.pop() {
            Some(v) => Ok(v),
            None => Ok(Value::Unit),
        }
    }
}

/// `list`: the operands as a list.
pub struct MkList;

impl MkList {
    /// Applies the operation to `args`.
    pub fn eval(&self, _env: &Environment, args: Vec<Value>) -> (r: Result<Value, Error>)
        ensures
            result_view(r) == list_spec(values_view(args@)),
    {
        Ok(Value::List(args))
    }
}

/// `car`: the first item of a list.
pub struct Car;

impl Car {
    /// Applies the operation to `args`.
    pub fn eval(&self, _env: &Environment, args: Vec<Value>) -> (r: Result<Value, Error>)
        ensures
            result_view(r) == car_spec(values_view(args@)),
    {
        let mut args = args;
        proof {
            lemma_values_view(args@);
        }
        if args.len() != 1 {
            return Err(wrong_count(1, args.len()));
        }
        let first = args.remove(0);
        match first {
            Value::List(mut l) => {
                proof {
                    lemma_values_view(l@);
                }
                if l.len() > 0 {
                    Ok(l.swap_remove(0))
                } else {
                    Err(one_error("car", &Value::List(l)))
                }
            },
            o => Err(one_error("car", &o)),
        }
    }
}

/// `cdr`: a list without its first item.
pub struct Cdr;

impl Cdr {
    /// Applies the operation to `args`.
    pub fn eval(&self, _env: &Environment, args: Vec<Value>) -> (r: Result<Value, Error>)
        ensures
            result_view(r) == cdr_spec(values_view(args@)),
    {
        let mut args = args;
        proof {
            lemma_values_view(args@);
        }
        if args.len() != 1 {
            return Err(wrong_count(1, args.len()));
        }
        let first = args.remove(0);
        match first {
            Value::List(mut l) => {
                let ghost before = values_view(l@);
                proof {
                    lemma_values_view(l@);
                }
                if l.len() > 0 {
                    l.remove(0);
                    proof {
                        lemma_values_view(l@);
                        assert(values_view(l@) =~= before.drop_first());
                    }
                }
                Ok(Value::List(l))
            },
            o => Err(one_error("cdr", &o)),
        }
    }
}

/// `cons`: a list with one more item at its front.
pub struct Cons;

impl Cons {
    /// Applies the operation to `args`.
    pub fn eval(&self, _env: &Environment, args: Vec<Value>) -> (r: Result<Value, Error>)
        ensures
            result_view(r) == cons_spec(values_view(args@)),
    {
        let mut args = args;
        proof {
            lemma_values_view(args@);
        }
        if args.len() != 2 {
            return Err(wrong_count(2, args.len()));
        }
        let v = args.remove(1);
        let e = args.remove(0);
        match v {
            Value::List(mut l) => {
                let ghost before = values_view(l@);
                proof {
                    lemma_values_view(l@);
                }
                l.insert(0, e);
                proof {
                    lemma_values_view(l@);
                    assert(values_view(l@) =~= seq![e@] + before);
                }
                Ok(Value::List(l))
            },
            Value::Unit => {
                let mut l: Vec<Value> = Vec::new();
                l.push(e);
                proof {
                    lemma_values_view(l@);
                    assert(values_view(l@) =~= seq![e@]);
                }
                Ok(Value::List(l))
            },
            o => Err(one_error("cons", &o)),
        }
    }
}

/// `length`: the length of a string, of a list or of the unit value.
pub struct Length;

impl Length {
    /// Applies the operation to `args`.
    pub fn eval(&self, _env: &Environment, args: Vec<Value>) -> (r: Result<Value, Error>)
        ensures
            result_view(r) == length_spec(values_view(args@)),
    {
        proof {
            lemma_values_view(args@);
        }
        if args.len() != 1 {
            return Err(wrong_count(1, args.len()));
        }
        let len: usize = match &args[0] {
            Value::Unit => 0,
            Value::String(s) => s.as_str().as_bytes().len(),
            Value::List(l) => {
                proof {
                    lemma_values_view(l@);
                }
                l.len()
            },
            v => {
                return Err(one_error("length", v));
            },
        };
        if len <= isize::MAX as usize {
            Ok(Value::Integer(len as isize))
        } else {
            Err(one_error("length", &args[0]))
        }
    }
}

/// `endp`: whether a list is empty.
pub struct Endp;

impl Endp {
    /// Applies the operation to `args`.
    pub fn eval(&self, _env: &Environment, args: Vec<Value>) -> (r: Result<Value, Error>)
        ensures
            result_view(r) == endp_spec(values_view(args@)),
    {
        proof {
            lemma_values_view(args@);
        }
        if args.len() != 1 {
            return Err(wrong_count(1, args.len()));
        }
        match &args[0] {
            Value::List(list) => {
                proof {
                    lemma_values_view(list@);
                }
                Ok(Value::bool(list.len() == 0))
            },
            v => Err(one_error("endp", v)),
        }
    }
}

} // verus!
