//! The builtins that reach outside the interpreter. Each of them hands
//! its work to the host as a request.

use vstd::prelude::*;
use crate::env::{Environment, Invoke, InvokeV, Pending, PendingV, Request, RequestV};
use crate::text::{chars_of, isize_of_text, parse_int};
use crate::value::{
    Value, ValueV, arity_error, lemma_values_view, msg_one, one_error, result_view, value_text,
    values_view, wrong_count,
};
use crate::{Error, ErrorV};

verus! {

/// The displayed texts of the first `k` of the values, one after the
/// other.
pub open spec fn print_text(args: Seq<ValueV>, k: nat) -> Seq<char>
    decreases k,
{
    if k == 0 || k > args.len() {
        Seq::empty()
    } else {
        print_text(args, (k - 1) as nat) + value_text(args[k - 1], false)
    }
}

/// What `print` comes to: the texts of its operands and a line feed are
/// written, and the unit value is the result.
pub open spec fn print_spec(args: Seq<ValueV>) -> InvokeV {
    InvokeV::Ask(RequestV::Print(print_text(args, args.len()).push('\n')), PendingV::Print)
}

/// What `read-line` comes to: a line is read.
pub open spec fn read_line_spec(args: Seq<ValueV>) -> InvokeV {
    if args.len() != 0 {
        InvokeV::Fail(arity_error(0, args.len()))
    } else {
        InvokeV::Ask(RequestV::ReadLine, PendingV::ReadLine)
    }
}

/// What `read-file` comes to: the file at the path is read.
pub open spec fn read_file_spec(args: Seq<ValueV>) -> InvokeV {
    if args.len() != 1 {
        InvokeV::Fail(arity_error(1, args.len()))
    } else {
        match args[0] {
            ValueV::String(p) => InvokeV::Ask(
                RequestV::ReadFile(p),
                PendingV::ReadFile { path: p },
            ),
            _ => InvokeV::Fail(ErrorV::VarEval(msg_one("read-file"@, args[0]))),
        }
    }
}

/// What `system` comes to: the command is run.
pub open spec fn system_spec(args: Seq<ValueV>) -> InvokeV {
    if args.len() != 1 {
        InvokeV::Fail(arity_error(1, args.len()))
    } else {
        match args[0] {
            ValueV::String(c) => InvokeV::Ask(RequestV::System(c), PendingV::System { command: c }),
            _ => InvokeV::Fail(ErrorV::VarEval(msg_one("system"@, args[0]))),
        }
    }
}

/// What `parse-int` gives: the integer that a string denotes, or the
/// integer that it was given.
pub open spec fn parse_int_spec(args: Seq<ValueV>) -> Result<ValueV, ErrorV> {
    if args.len() != 1 {
        Err(arity_error(1, args.len()))
    } else {
        match args[0] {
            ValueV::String(s) => match isize_of_text(s) {
                Some(i) => Ok(ValueV::Integer(i)),
                None => Err(ErrorV::VarEval(msg_one("parse-int"@, args[0]))),
            },
            ValueV::Integer(_) => Ok(args[0]),
            _ => Err(ErrorV::VarEval(msg_one("parse-int"@, args[0]))),
        }
    }
}

/// `print`: writes its operands and a line feed.
pub struct Print;

impl Print {
    /// Applies the operation to `args`.
    pub fn eval(&self, _env: &Environment, args: Vec<Value>) -> (r: Invoke)
        ensures
            r@ == print_spec(values_view(args@)),
    {
        proof {
            lemma_values_view(args@);
        }
        let ghost av = values_view(args@);
        let mut text = String::new();
        let mut i: usize = 0;
        while i < args.len()
            invariant
                i <= args.len(),
                av == values_view(args@),
                av.len() == args.len(),
                forall|j: int| 0 <= j < args.len() ==> av[j] == args[j]@,
                text@ == print_text(av, i as nat),
            decreases args.len() - i,
        {
            args[i].render(false, &mut text);
            i += 1;
        }
        text.push('\n');
        Invoke::Ask(Request::Print(text), Pending::Print)
    }
}

/// `read-line`: one line of the input, without the line feed and the
/// carriage return at its end.
pub struct ReadLine;

impl ReadLine {
    /// Applies the operation to `args`.
    pub fn eval(&self, _env: &Environment, args: Vec<Value>) -> (r: Invoke)
        ensures
            r@ == read_line_spec(values_view(args@)),
    {
        proof {
            lemma_values_view(args@);
        }
        if args.len() != 0 {
            return Invoke::Fail(wrong_count(0, args.len()));
        }
        Invoke::Ask(Request::ReadLine, Pending::ReadLine)
    }
}

/// `read-file`: the contents of a file as a string.
pub struct ReadFile;

impl ReadFile {
    /// Applies the operation to `args`.
    pub fn eval(&self, _env: &Environment, args: Vec<Value>) -> (r: Invoke)
        ensures
            r@ == read_file_spec(values_view(args@)),
    {
        proof {
            lemma_values_view(args@);
        }
        if args.len() != 1 {
            return Invoke::Fail(wrong_count(1, args.len()));
        }
        match &args[0] {
            Value::String(path) => Invoke::Ask(
                Request::ReadFile(path.clone()),
                Pending::ReadFile { path: path.clone() },
            ),
            v => Invoke::Fail(one_error("read-file", v)),
        }
    }
}

/// `parse-int`: the integer that a string denotes.
pub struct ParseInt;

impl ParseInt {
    /// Applies the operation to `args`.
    pub fn eval(&self, _env: &Environment, args: Vec<Value>) -> (r: Result<Value, Error>)
        ensures
            result_view(r) == parse_int_spec(values_view(args@)),
    {
        proof {
            lemma_values_view(args@);
        }
        if args.len() != 1 {
            return Err(wrong_count(1, args.len()));
        }
        match &args[0] {
            Value::String(s) => {
                match parse_int(&chars_of(s.as_str())) {
                    Some(v) => Ok(Value::integer(v)),
                    None => Err(one_error("parse-int", &args[0])),
                }
            },
            Value::Integer(i) => Ok(Value::Integer(*i)),
            e => Err(one_error("parse-int", e)),
        }
    }
}

/// `system`: the output of a command of the host's shell, without the
/// line feeds and carriage returns at its end.
pub struct System;

impl System {
    /// Applies the operation to `args`.
    pub fn eval(&self, _env: &Environment, args: Vec<Value>) -> (r: Invoke)
        ensures
            r@ == system_spec(values_view(args@)),
    {
        proof {
            lemma_values_view(args@);
        }
        if args.len() != 1 {
            return Invoke::Fail(wrong_count(1, args.len()));
        }
        match &args[0] {
            Value::String(cmd) => Invoke::Ask(
                Request::System(cmd.clone()),
                Pending::System { command: cmd.clone() },
            ),
            v => Invoke::Fail(one_error("system", v)),
        }
    }
}

} // verus!
