//! A small Lisp-family scripting language for embedding: a lexer, a parser,
//! a value and environment model, the builtin operations, and an evaluator
//! that runs as a machine of small steps and hands every piece of outside
//! work (input, output, floating-point arithmetic) to its host as a request.

use vstd::prelude::*;

pub mod ast;
pub mod env;
pub mod laws;
pub mod machine;
pub mod reading;
pub mod text;
pub mod token;
pub mod value;

use crate::ast::{AstNode, parse_all};
use crate::env::{EnvV, Environment, Reply, Request, RequestV, default_bindings};
use crate::laws::law_unreadable_script_ends_the_run;
use crate::machine::{
    Capabilities, ControlV, Machine, MachineV, Status, StatusV, idle, reply_spec, run_spec,
    start_script,
};
use crate::token::tokens_of;
use crate::value::{Value, ValueV};

verus! {

/// What can go wrong while a script is read or run.
#[derive(Debug, PartialEq)]
pub enum Error {
    /// The text holds a malformed token.
    TokenizerError(String),
    /// The parentheses of the text do not balance.
    ParserError(String),
    /// A form cannot be evaluated: a special form is misused, an operand
    /// is missing, a name is unknown or the head of a call is no symbol.
    EvalError(String),
    /// A builtin or a lambda failed on its arguments.
    VarEvalError(String),
    /// A call gave another number of arguments than the callee takes.
    VarEvalArgNumError { expected: usize, actual: usize },
}

/// The mathematical value of an [`Error`].
pub ghost enum ErrorV {
    Tokenizer(Seq<char>),
    Parser(Seq<char>),
    Eval(Seq<char>),
    VarEval(Seq<char>),
    ArgNum { expected: nat, actual: nat },
}

impl View for Error {
    type V = ErrorV;

    open spec fn view(&self) -> ErrorV {
        match self {
            Error::TokenizerError(m) => ErrorV::Tokenizer(m@),
            Error::ParserError(m) => ErrorV::Parser(m@),
            Error::EvalError(m) => ErrorV::Eval(m@),
            Error::VarEvalError(m) => ErrorV::VarEval(m@),
            Error::VarEvalArgNumError { expected, actual } => ErrorV::ArgNum {
                expected: *expected as nat,
                actual: *actual as nat,
            },
        }
    }
}

/// The text that reports an error to a reader.
pub open spec fn error_text(e: ErrorV) -> Seq<char> {
    match e {
        ErrorV::Tokenizer(m) => "Tokenizer error: "@ + m,
        ErrorV::Parser(m) => "Parser error: "@ + m,
        ErrorV::Eval(m) => "Evaluation error: "@ + m,
        ErrorV::VarEval(m) => m,
        ErrorV::ArgNum { expected, actual } => "Invalid number of arguments. Expected "@
            + text::nat_text(expected) + " but got "@ + text::nat_text(actual),
    }
}

impl Clone for Error {
    fn clone(&self) -> (r: Self)
        ensures
            r@ == self@,
    {
        match self {
            Error::TokenizerError(m) => Error::TokenizerError(m.clone()),
            Error::ParserError(m) => Error::ParserError(m.clone()),
            Error::EvalError(m) => Error::EvalError(m.clone()),
            Error::VarEvalError(m) => Error::VarEvalError(m.clone()),
            Error::VarEvalArgNumError { expected, actual } => Error::VarEvalArgNumError {
                expected: *expected,
                actual: *actual,
            },
        }
    }
}

impl Error {
    /// The text that reports this error.
    pub fn to_string(&self) -> (s: String)
        ensures
            s@ == error_text(self@),
    {
        match self {
            Error::TokenizerError(m) => text::concat2("Tokenizer error: ", m.as_str()),
            Error::ParserError(m) => text::concat2("Parser error: ", m.as_str()),
            Error::EvalError(m) => text::concat2("Evaluation error: ", m.as_str()),
            Error::VarEvalError(m) => m.clone(),
            Error::VarEvalArgNumError { expected, actual } => {
                let mut s = String::from_str("Invalid number of arguments. Expected ");
                text::push_chars(&mut s, &text::nat_chars(*expected));
                s.append(" but got ");
                text::push_chars(&mut s, &text::nat_chars(*actual));
                s
            },
        }
    }
}

/// An environment that holds the builtin library: one scope with every
/// builtin under its name, and the constant `pi`.
pub fn default_environment() -> (r: Environment)
    ensures
        r@ == seq![default_bindings()],
{
    Environment::with_default_content()
}

/// How a run stands when the library hands it back to its caller.
#[derive(Debug, PartialEq)]
pub enum Outcome {
    /// The run is over, with its value or its error.
    Finished(Result<Value, Error>),
    /// The machine waits for the host to answer the request; `resume`
    /// goes on with the answer.
    Waiting(Request, Machine),
    /// The machine has used up its fuel and has more steps to make;
    /// `resume` goes on.
    Running(Machine),
}

/// The mathematical value of an [`Outcome`].
pub ghost enum OutcomeV {
    Finished(Result<ValueV, ErrorV>),
    Waiting(RequestV, MachineV),
    Running(MachineV),
}

impl View for Outcome {
    type V = OutcomeV;

    open spec fn view(&self) -> OutcomeV {
        match self {
            Outcome::Finished(Ok(v)) => OutcomeV::Finished(Ok(v@)),
            Outcome::Finished(Err(e)) => OutcomeV::Finished(Err(e@)),
            Outcome::Waiting(r, m) => OutcomeV::Waiting(r@, m@),
            Outcome::Running(m) => OutcomeV::Running(m@),
        }
    }
}

/// What the caller gets of a machine that has run and reported `status`:
/// the result of a run that is over, and else the machine to go on with.
pub open spec fn outcome_of(run: (MachineV, StatusV)) -> OutcomeV {
    match run.1 {
        StatusV::Finished(r) => OutcomeV::Finished(r),
        StatusV::Waiting(request) => OutcomeV::Waiting(request, run.0),
        StatusV::Running => OutcomeV::Running(run.0),
    }
}

/// The environment that the caller holds after a machine has run: that
/// of the machine where the run is over, and `held` while the machine
/// keeps its own.
pub open spec fn env_after(run: (MachineV, StatusV), held: EnvV) -> EnvV {
    if run.1 is Finished {
        run.0.env
    } else {
        held
    }
}

/// The environment that stands in for one that a machine holds: one
/// scope that binds nothing.
pub open spec fn no_bindings() -> EnvV {
    seq![Seq::empty()]
}

/// The machine that runs `script` in `env` with every optional form of
/// the language.
pub open spec fn script_machine(env: EnvV, script: Seq<char>) -> MachineV {
    start_script(idle(env, Capabilities { eval: true, files: true }), script, false)
}

/// Runs `machine` for up to `fuel` steps and hands the run back.
fn hand_back(machine: Machine, env: &mut Environment, fuel: usize) -> (out: Outcome)
    ensures
        out@ == outcome_of(run_spec(machine@, fuel as nat)),
        final(env)@ == env_after(run_spec(machine@, fuel as nat), old(env)@),
{
    let mut machine = machine;
    match machine.run(fuel) {
        Status::Finished(result) => {
            *env = machine.into_env();
            Outcome::Finished(result)
        },
        Status::Waiting(request) => Outcome::Waiting(request, machine),
        Status::Running => Outcome::Running(machine),
    }
}

/// Runs `script` in `env` for up to `fuel` steps of the machine, with
/// every optional form of the language. The whole script is read first:
/// where it does not read, because its parentheses do not balance or for
/// a lexical error, the run is over with that error, nothing was
/// evaluated and `env` is what it was. Where the run is over, `env` holds
/// what the run has bound. Where the machine waits for the host or has
/// used up its fuel, the machine keeps the environment, `env` holds no
/// bindings until `resume` has brought the run to its end, and the
/// outcome holds the machine to go on with.
pub fn run_with_env(script: &str, env: &mut Environment, fuel: usize) -> (out: Outcome)
    ensures
        out@ == outcome_of(run_spec(script_machine(old(env)@, script@), fuel as nat)),
        final(env)@ == env_after(
            run_spec(script_machine(old(env)@, script@), fuel as nat),
            no_bindings(),
        ),
        match parse_all(tokens_of(script@)) {
            Err(e) => out@ == OutcomeV::Finished(Err(e)) && final(env)@ == old(env)@,
            Ok(_) => true,
        },
{
    proof {
        match parse_all(tokens_of(script@)) {
            Err(e) => {
                law_unreadable_script_ends_the_run(
                    old(env)@,
                    Capabilities { eval: true, files: true },
                    script@,
                    e,
                    fuel as nat,
                );
            },
            Ok(_) => {},
        }
    }
    let mut taken = Environment::empty();
    core::mem::swap(env, &mut taken);
    let mut machine = Machine::new(taken, Capabilities::all());
    machine.load(script);
    hand_back(machine, env, fuel)
}

/// Goes on with a run that was handed back: gives the machine the
/// answer of the host, where there is one, and runs it for up to `fuel`
/// steps more. Where the run is over then, `env` holds what the run has
/// bound; else `env` stays as it is and the outcome holds the machine.
pub fn resume(machine: Machine, reply: Option<Reply>, env: &mut Environment, fuel: usize) -> (out:
    Outcome)
    ensures
        ({
            let m = match reply {
                Some(r) => reply_spec(machine@, r@),
                None => machine@,
            };
            &&& out@ == outcome_of(run_spec(m, fuel as nat))
            &&& final(env)@ == env_after(run_spec(m, fuel as nat), old(env)@)
        }),
{
    let mut machine = machine;
    match reply {
        Some(r) => {
            machine.reply(r);
        },
        None => {},
    }
    hand_back(machine, env, fuel)
}

/// Runs `script` in a new default environment for up to `fuel` steps of
/// the machine, and hands the run back as `run_with_env` does.
pub fn run(script: &str, fuel: usize) -> (out: Outcome)
    ensures
        out@ == outcome_of(run_spec(script_machine(seq![default_bindings()], script@), fuel as nat)),
        match parse_all(tokens_of(script@)) {
            Err(e) => out@ == OutcomeV::Finished(Err(e)),
            Ok(_) => true,
        },
{
    let mut env = default_environment();
    run_with_env(script, &mut env, fuel)
}

impl AstNode {
    /// Evaluates the node in `env` for up to `fuel` steps of the machine,
    /// with every optional form of the language, and hands the run back
    /// as `run_with_env` does.
    pub fn eval(&self, env: &mut Environment, fuel: usize) -> (out: Outcome)
        ensures
            ({
                let start = idle(old(env)@, Capabilities { eval: true, files: true }).go(
                    ControlV::Eval(self@),
                );
                &&& out@ == outcome_of(run_spec(start, fuel as nat))
                &&& final(env)@ == env_after(run_spec(start, fuel as nat), no_bindings())
            }),
    {
        let mut taken = Environment::empty();
        core::mem::swap(env, &mut taken);
        let mut machine = Machine::new(taken, Capabilities::all());
        machine.start(self.clone());
        hand_back(machine, env, fuel)
    }
}

} // verus!
