//! The evaluator: a machine that interprets a script in small steps. Its
//! state is the form or value at hand, the environment, and a stack of
//! frames that say what goes on with each value that comes back. Work
//! that only the host can do stops the machine with a request, and the
//! host's reply sets it going again.

use vstd::prelude::*;
use crate::ast::{
    AstNode, NodeV, lemma_nodes_view, node_text, nodes_view, parse_all, parse_script,
};
use crate::env::{
    ConstVal, EnvV, Environment, Invoke, InvokeV, Pending, PendingV, Reply, ReplyV, Request,
    RequestV, Variable, VariableV, env_insert, env_lookup, invoke_spec, msg_no_value,
    resume_spec,
};
use crate::text::{concat2, reversed};
use crate::token::tokens_of;
use crate::value::{Lambda, Value, ValueV, lemma_values_view, lemma_values_view_push, values_view};
use crate::{Error, ErrorV};

verus! {

/// The optional forms of the language that a machine takes.
#[derive(Debug, PartialEq, Eq, Clone, Copy)]
pub struct Capabilities {
    /// Whether `eval` runs a string as a script.
    pub eval: bool,
    /// Whether a form can bring in the script of a file.
    pub files: bool,
}

impl Capabilities {
    /// Every optional form.
    pub fn all() -> (r: Capabilities)
        ensures
            r == (Capabilities { eval: true, files: true }),
    {
        Capabilities { eval: true, files: true }
    }

    /// No optional form.
    pub fn none() -> (r: Capabilities)
        ensures
            r == (Capabilities { eval: false, files: false }),
    {
        Capabilities { eval: false, files: false }
    }
}

/// What goes on with the value of the form that is being evaluated.
#[derive(Debug, PartialEq)]
pub enum Frame {
    /// The value is the test of an `if`.
    If { conseq: AstNode, alt: AstNode },
    /// The value is bound to `name`.
    Define { name: String },
    /// The value is that of a form of a `progn`; `rest` holds the forms
    /// that follow, last first.
    Progn { rest: Vec<AstNode> },
    /// The value is that of a form of the body of a lambda, which runs in
    /// a scope of its own; `rest` holds the forms that follow, last
    /// first.
    Body { rest: Vec<AstNode> },
    /// The value is an argument of a call of `head`; `done` holds the
    /// arguments before it, and `rest` the forms of those that follow,
    /// last first.
    Args { head: String, rest: Vec<AstNode>, done: Vec<Value> },
    /// The value is that of a top-level form of a script; `rest` holds
    /// the forms that follow, last first, and `discard` says whether the
    /// script gives the unit value in place of the value of its last
    /// form.
    Script { rest: Vec<AstNode>, discard: bool },
    /// The host was asked for something.
    Pending(Pending),
}

/// The mathematical value of a [`Frame`].
pub ghost enum FrameV {
    If { conseq: NodeV, alt: NodeV },
    Define { name: Seq<char> },
    Progn { rest: Seq<NodeV> },
    Body { rest: Seq<NodeV> },
    Args { head: Seq<char>, rest: Seq<NodeV>, done: Seq<ValueV> },
    Script { rest: Seq<NodeV>, discard: bool },
    Pending(PendingV),
}

impl View for Frame {
    type V = FrameV;

    open spec fn view(&self) -> FrameV {
        match self {
            Frame::If { conseq, alt } => FrameV::If { conseq: conseq@, alt: alt@ },
            Frame::Define { name } => FrameV::Define { name: name@ },
            Frame::Progn { rest } => FrameV::Progn { rest: nodes_view(rest@) },
            Frame::Body { rest } => FrameV::Body { rest: nodes_view(rest@) },
            Frame::Args { head, rest, done } => FrameV::Args {
                head: head@,
                rest: nodes_view(rest@),
                done: values_view(done@),
            },
            Frame::Script { rest, discard } => FrameV::Script {
                rest: nodes_view(rest@),
                discard: *discard,
            },
            Frame::Pending(p) => FrameV::Pending(p@),
        }
    }
}

/// What the machine does next.
#[derive(Debug, PartialEq)]
pub enum Control {
    /// Evaluate the form.
    Eval(AstNode),
    /// Hand the value to the frame on top of the stack.
    Return(Value),
    /// Unwind the stack with the error.
    Raise(Error),
    /// Call the binding `name`; `forwarded` says whether a symbol
    /// reference handed the call on.
    Call { name: String, args: Vec<Value>, forwarded: bool },
    /// Wait for the host to answer the request.
    Await(Request),
}

/// The mathematical value of a [`Control`].
pub ghost enum ControlV {
    Eval(NodeV),
    Return(ValueV),
    Raise(ErrorV),
    Call { name: Seq<char>, args: Seq<ValueV>, forwarded: bool },
    Await(RequestV),
}

impl View for Control {
    type V = ControlV;

    open spec fn view(&self) -> ControlV {
        match self {
            Control::Eval(n) => ControlV::Eval(n@),
            Control::Return(v) => ControlV::Return(v@),
            Control::Raise(e) => ControlV::Raise(e@),
            Control::Call { name, args, forwarded } => ControlV::Call {
                name: name@,
                args: values_view(args@),
                forwarded: *forwarded,
            },
            Control::Await(r) => ControlV::Await(r@),
        }
    }
}

/// What a step of the machine reports.
#[derive(Debug, PartialEq)]
pub enum Status {
    /// The machine has more steps to make.
    Running,
    /// The machine waits for the host to answer the request.
    Waiting(Request),
    /// The run is over, with its value or its error.
    Finished(Result<Value, Error>),
}

/// The mathematical value of a [`Status`].
pub ghost enum StatusV {
    Running,
    Waiting(RequestV),
    Finished(Result<ValueV, ErrorV>),
}

impl View for Status {
    type V = StatusV;

    open spec fn view(&self) -> StatusV {
        match self {
            Status::Running => StatusV::Running,
            Status::Waiting(r) => StatusV::Waiting(r@),
            Status::Finished(Ok(v)) => StatusV::Finished(Ok(v@)),
            Status::Finished(Err(e)) => StatusV::Finished(Err(e@)),
        }
    }
}

/// The mathematical value of a machine.
pub ghost struct MachineV {
    pub env: EnvV,
    pub stack: Seq<FrameV>,
    pub control: ControlV,
    pub caps: Capabilities,
}

impl MachineV {
    /// The machine with `control` as what it does next.
    pub open spec fn go(self, control: ControlV) -> MachineV {
        MachineV { control, ..self }
    }

    /// The machine with `frame` on top of its stack.
    pub open spec fn push(self, frame: FrameV) -> MachineV {
        MachineV { stack: self.stack.push(frame), ..self }
    }

    /// The machine with the environment `env`.
    pub open spec fn with_env(self, env: EnvV) -> MachineV {
        MachineV { env, ..self }
    }

    /// The machine that fails with the evaluation error `msg`.
    pub open spec fn fail(self, msg: Seq<char>) -> MachineV {
        self.go(ControlV::Raise(ErrorV::Eval(msg)))
    }
}

/// `env` without its innermost scope.
pub open spec fn env_pop(env: EnvV) -> EnvV {
    if env.len() > 0 {
        env.drop_last()
    } else {
        env
    }
}

/// The machine that has nothing to do, with the unit value as the result
/// of nothing.
pub open spec fn idle(env: EnvV, caps: Capabilities) -> MachineV {
    MachineV { env, stack: Seq::empty(), control: ControlV::Return(ValueV::Unit), caps }
}

/// The machine that sets out on the script `text`. The whole text is
/// read first: where the lexer or the parser meets an error anywhere in
/// it, the machine fails with that error and evaluates nothing. Else the
/// top-level forms are evaluated one after the other, and the script
/// gives the value of the last one, or the unit value where `discard`
/// holds or the script has no form.
pub open spec fn start_script(m: MachineV, text: Seq<char>, discard: bool) -> MachineV {
    match parse_all(tokens_of(text)) {
        Ok(forms) => m.push(FrameV::Script { rest: forms.reverse(), discard }).go(
            ControlV::Return(ValueV::Unit),
        ),
        Err(e) => m.go(ControlV::Raise(e)),
    }
}

/// The machine that sets out on the script in the file at `path`: the
/// host is asked for the contents of the file, and they run as a script.
pub open spec fn start_file(m: MachineV, path: Seq<char>, discard: bool) -> MachineV {
    m.push(FrameV::Pending(PendingV::Include { path, discard })).go(
        ControlV::Await(RequestV::ReadFile(path)),
    )
}

/// `if`: the test is evaluated first, and its value picks the branch.
pub open spec fn if_spec(m: MachineV, l: Seq<NodeV>) -> MachineV {
    if l.len() < 2 {
        m.fail("missing test"@)
    } else if l.len() < 3 {
        m.fail("missing conseq"@)
    } else if l.len() < 4 {
        m.fail("missing alt"@)
    } else {
        m.push(FrameV::If { conseq: l[2], alt: l[3] }).go(ControlV::Eval(l[1]))
    }
}

/// `define`: the value form is evaluated and its value is bound to the
/// symbol. A target that is no symbol binds nothing, and the value form
/// is not evaluated.
pub open spec fn define_spec(m: MachineV, l: Seq<NodeV>) -> MachineV {
    if l.len() < 2 {
        m.fail("no symbol for define"@)
    } else if l.len() < 3 {
        m.fail("no value for define"@)
    } else {
        match l[1] {
            NodeV::Symbol(name) => m.push(FrameV::Define { name }).go(ControlV::Eval(l[2])),
            _ => m.go(ControlV::Return(ValueV::Unit)),
        }
    }
}

/// The place of the first node of `params` at or after `from` that is no
/// symbol; the length of `params` where all are symbols.
pub open spec fn first_non_symbol(params: Seq<NodeV>, from: int) -> int
    decreases params.len() - from,
{
    if from < 0 || from >= params.len() {
        params.len() as int
    } else if params[from] is Symbol {
        first_non_symbol(params, from + 1)
    } else {
        from
    }
}

/// The names of the symbols `params`.
pub open spec fn symbol_names(params: Seq<NodeV>) -> Seq<Seq<char>> {
    Seq::new(
        params.len(),
        |i: int|
            match params[i] {
                NodeV::Symbol(s) => s,
                _ => Seq::empty(),
            },
    )
}

/// `lambda`: the function value with the symbols of the parameter list
/// as its parameters and the forms behind the list as its body. The body
/// is not evaluated.
pub open spec fn lambda_form_spec(m: MachineV, l: Seq<NodeV>) -> MachineV {
    if l.len() < 2 {
        m.fail("no args for lambda"@)
    } else {
        match l[1] {
            NodeV::List(params) => {
                let k = first_non_symbol(params, 0);
                if k < params.len() {
                    m.fail("not a symbol: "@ + node_text(params[k]))
                } else {
                    m.go(
                        ControlV::Return(
                            ValueV::Lambda {
                                vars: symbol_names(params),
                                body: l.subrange(2, l.len() as int),
                            },
                        ),
                    )
                }
            },
            other => m.fail("not a list: "@ + node_text(other)),
        }
    }
}

/// `progn`: the forms are evaluated in order, and the value of the last
/// one is the result. No form at all is an evaluation error.
pub open spec fn progn_spec(m: MachineV, l: Seq<NodeV>) -> MachineV {
    if l.len() < 2 {
        m.fail(msg_no_value())
    } else {
        m.push(FrameV::Progn { rest: l.subrange(2, l.len() as int).reverse() }).go(
            ControlV::Eval(l[1]),
        )
    }
}

/// The string literal that the form named `word` takes as its one
/// operand, or the machine that fails for the want of it.
pub open spec fn literal_operand(m: MachineV, l: Seq<NodeV>, word: Seq<char>) -> Result<
    Seq<char>,
    MachineV,
> {
    if l.len() < 2 {
        Err(m.fail("no args for "@ + word))
    } else {
        match l[1] {
            NodeV::Value(ValueV::String(t)) => Ok(t),
            NodeV::Value(_) => Err(m.fail(node_text(l[1]) + " is not a string"@)),
            _ => Err(m.fail(node_text(l[1]) + " is not a value"@)),
        }
    }
}

/// `eval`: the string literal is read as a script of its own, which runs
/// in the current environment and gives the value of the form.
pub open spec fn eval_form_spec(m: MachineV, l: Seq<NodeV>) -> MachineV {
    match literal_operand(m, l, "eval"@) {
        Ok(text) => start_script(m, text, false),
        Err(failed) => failed,
    }
}

/// The form that brings in a file: the host is asked for the contents of
/// the file that the string literal names, and they run as a script in
/// the current environment.
pub open spec fn file_form_spec(m: MachineV, l: Seq<NodeV>) -> MachineV {
    match literal_operand(m, l, "include"@) {
        Ok(path) => start_file(m, path, true),
        Err(failed) => failed,
    }
}

/// A call: the operands are evaluated in order, and then the binding of
/// the head is looked up and invoked with their values.
pub open spec fn call_form_spec(m: MachineV, head: Seq<char>, l: Seq<NodeV>) -> MachineV {
    if l.len() < 2 {
        m.go(ControlV::Call { name: head, args: Seq::empty(), forwarded: false })
    } else {
        m.push(
            FrameV::Args {
                head,
                rest: l.subrange(2, l.len() as int).reverse(),
                done: Seq::empty(),
            },
        ).go(ControlV::Eval(l[1]))
    }
}

/// The list `l`, whose head is the symbol `head`: a special form where
/// the head names one that the machine takes, else a call.
pub open spec fn form_spec(m: MachineV, head: Seq<char>, l: Seq<NodeV>) -> MachineV {
    if head == "if"@ {
        if_spec(m, l)
    } else if head == "define"@ {
        define_spec(m, l)
    } else if head == "lambda"@ {
        lambda_form_spec(m, l)
    } else if head == "progn"@ {
        progn_spec(m, l)
    } else if head == "eval"@ && m.caps.eval {
        eval_form_spec(m, l)
    } else if head == "include"@ && m.caps.files {
        file_form_spec(m, l)
    } else {
        call_form_spec(m, head, l)
    }
}

/// The first step of evaluating `node`. A literal is its own value. A
/// float literal is a number that the host makes. A symbol is looked up:
/// a binding that holds a value gives it, any other gives a reference to
/// the symbol. The empty list is the unit value, and any other list is a
/// form whose head must be a symbol.
pub open spec fn eval_spec(m: MachineV, node: NodeV) -> MachineV {
    match node {
        NodeV::Value(v) => m.go(ControlV::Return(v)),
        NodeV::Float(t) => m.push(FrameV::Pending(PendingV::Literal)).go(
            ControlV::Await(RequestV::ParseFloat(t)),
        ),
        NodeV::Symbol(s) => match env_lookup(m.env, s) {
            None => m.fail("symbol not found: "@ + s),
            Some(VariableV::Const(v)) => m.go(ControlV::Return(v)),
            Some(_) => m.go(ControlV::Return(ValueV::SymbolRef(s))),
        },
        NodeV::List(l) => if l.len() == 0 {
            m.go(ControlV::Return(ValueV::Unit))
        } else {
            match l[0] {
                NodeV::Symbol(head) => form_spec(m, head, l),
                _ => m.fail("invalid at this point in time: "@ + node_text(node)),
            }
        },
    }
}

/// What invoking a binding came to, taken up by the machine.
pub open spec fn apply_spec(m: MachineV, inv: InvokeV) -> MachineV {
    match inv {
        InvokeV::Value(v) => m.go(ControlV::Return(v)),
        InvokeV::Fail(e) => m.go(ControlV::Raise(e)),
        InvokeV::Ask(req, p) => m.push(FrameV::Pending(p)).go(ControlV::Await(req)),
        InvokeV::Enter { scope, body } => if body.len() == 0 {
            m.fail(msg_no_value())
        } else {
            m.with_env(m.env.push(scope)).push(
                FrameV::Body { rest: body.subrange(1, body.len() as int).reverse() },
            ).go(ControlV::Eval(body[0]))
        },
        InvokeV::Forward { name, args } => m.go(ControlV::Call { name, args, forwarded: true }),
        InvokeV::Script { text, discard } => start_script(m, text, discard),
    }
}

/// A call of the binding `name` with `args`: the name is resolved in the
/// environment that is active where the call is made, and what it is
/// bound to is invoked there. A name that is not bound is an evaluation
/// error.
pub open spec fn call_spec(m: MachineV, name: Seq<char>, args: Seq<ValueV>, forwarded: bool) -> MachineV {
    match env_lookup(m.env, name) {
        None => m.fail(
            if forwarded {
                "unknown symbol: "@ + name
            } else {
                "proc not found: "@ + name
            },
        ),
        Some(var) => apply_spec(m, invoke_spec(var, m.env, args)),
    }
}

/// The next of the forms `rest` of a sequence, of which a form gave `v`;
/// `body` says whether the sequence is the body of a lambda, whose scope
/// closes with it.
pub open spec fn sequence_spec(m: MachineV, rest: Seq<NodeV>, v: ValueV, body: bool) -> MachineV {
    if rest.len() == 0 {
        if body {
            m.with_env(env_pop(m.env)).go(ControlV::Return(v))
        } else {
            m.go(ControlV::Return(v))
        }
    } else {
        m.push(
            if body {
                FrameV::Body { rest: rest.drop_last() }
            } else {
                FrameV::Progn { rest: rest.drop_last() }
            },
        ).go(ControlV::Eval(rest.last()))
    }
}

/// The value `v` comes back to `frame`, which was on top of the stack of
/// `m` before.
pub open spec fn deliver_spec(m: MachineV, frame: FrameV, v: ValueV) -> MachineV {
    match frame {
        FrameV::If { conseq, alt } => m.go(
            ControlV::Eval(
                if v == ValueV::Integer(1) {
                    conseq
                } else {
                    alt
                },
            ),
        ),
        FrameV::Define { name } => m.with_env(env_insert(m.env, name, VariableV::Const(v))).go(
            ControlV::Return(ValueV::Unit),
        ),
        FrameV::Progn { rest } => sequence_spec(m, rest, v, false),
        FrameV::Body { rest } => sequence_spec(m, rest, v, true),
        FrameV::Args { head, rest, done } => if rest.len() == 0 {
            m.go(ControlV::Call { name: head, args: done.push(v), forwarded: false })
        } else {
            m.push(FrameV::Args { head, rest: rest.drop_last(), done: done.push(v) }).go(
                ControlV::Eval(rest.last()),
            )
        },
        FrameV::Script { rest, discard } => if rest.len() == 0 {
            m.go(
                ControlV::Return(
                    if discard {
                        ValueV::Unit
                    } else {
                        v
                    },
                ),
            )
        } else {
            m.push(FrameV::Script { rest: rest.drop_last(), discard }).go(
                ControlV::Eval(rest.last()),
            )
        },
        FrameV::Pending(_) => m.go(ControlV::Return(v)),
    }
}

/// The error `e` passes `frame`, which was on top of the stack of `m`
/// before. The error passes as it is; the body of a lambda closes its
/// scope on the way.
pub open spec fn unwind_spec(m: MachineV, frame: FrameV, e: ErrorV) -> MachineV {
    match frame {
        FrameV::Body { .. } => m.with_env(env_pop(m.env)).go(ControlV::Raise(e)),
        _ => m.go(ControlV::Raise(e)),
    }
}

/// One step of the machine, and what it reports. A machine that waits
/// for the host, or whose run is over, stays as it is.
pub open spec fn step_spec(m: MachineV) -> (MachineV, StatusV) {
    match m.control {
        ControlV::Await(req) => (m, StatusV::Waiting(req)),
        ControlV::Eval(node) => (eval_spec(m, node), StatusV::Running),
        ControlV::Call { name, args, forwarded } => (
            call_spec(m, name, args, forwarded),
            StatusV::Running,
        ),
        ControlV::Return(v) => if m.stack.len() == 0 {
            (m, StatusV::Finished(Ok(v)))
        } else {
            (
                deliver_spec(MachineV { stack: m.stack.drop_last(), ..m }, m.stack.last(), v),
                StatusV::Running,
            )
        },
        ControlV::Raise(e) => if m.stack.len() == 0 {
            (m, StatusV::Finished(Err(e)))
        } else {
            (
                unwind_spec(MachineV { stack: m.stack.drop_last(), ..m }, m.stack.last(), e),
                StatusV::Running,
            )
        },
    }
}

/// The machine after the host has answered `reply`. Only a machine that
/// waits takes a reply; what the request was made for goes on with it.
pub open spec fn reply_spec(m: MachineV, reply: ReplyV) -> MachineV {
    if m.control is Await && m.stack.len() > 0 {
        match m.stack.last() {
            FrameV::Pending(p) => apply_spec(
                MachineV { stack: m.stack.drop_last(), ..m },
                resume_spec(p, reply),
            ),
            _ => m,
        }
    } else {
        m
    }
}

/// Whether the machine has stopped: its run is over, or it waits for the
/// host.
pub open spec fn stopped(m: MachineV) -> bool {
    !(step_spec(m).1 is Running)
}

/// A run of the machine with `fuel`: the machine steps until it has
/// stopped, and each step uses up one unit of fuel. A machine that has
/// stopped says so without fuel; one that has steps to make and no fuel
/// left reports that it is running.
pub open spec fn run_spec(m: MachineV, fuel: nat) -> (MachineV, StatusV)
    decreases fuel,
{
    if stopped(m) {
        step_spec(m)
    } else if fuel == 0 {
        (m, StatusV::Running)
    } else {
        run_spec(step_spec(m).0, (fuel - 1) as nat)
    }
}

/// The mathematical values of the frames of a stack.
pub open spec fn stack_view(s: Seq<Frame>) -> Seq<FrameV> {
    Seq::new(s.len(), |i: int| s[i]@)
}

/// Takes the node at `at` out of `l`, and the nodes behind it, last
/// first.
fn take_from(l: Vec<AstNode>, at: usize) -> (r: (AstNode, Vec<AstNode>))
    requires
        at < l.len(),
    ensures
        r.0@ == nodes_view(l@)[at as int],
        nodes_view(r.1@) == nodes_view(l@).subrange(at + 1, l.len() as int).reverse(),
{
    let mut head = l;
    let tail = head.split_off(at + 1);
    let node = head.pop().unwrap();
    let rest = reversed(tail);
    proof {
        lemma_nodes_view(l@);
        lemma_nodes_view(rest@);
        assert(nodes_view(rest@) =~= nodes_view(l@).subrange(at + 1, l.len() as int).reverse());
    }
    (node, rest)
}

/// An interpreter for one run: an environment, and the state of the
/// evaluation in it.
#[derive(Debug, PartialEq)]
pub struct Machine {
    env: Environment,
    stack: Vec<Frame>,
    control: Control,
    caps: Capabilities,
}

impl View for Machine {
    type V = MachineV;

    closed spec fn view(&self) -> MachineV {
        MachineV {
            env: self.env@,
            stack: stack_view(self.stack@),
            control: self.control@,
            caps: self.caps,
        }
    }
}

impl Machine {
    /// A machine over `env` that has nothing to do yet.
    pub fn new(env: Environment, caps: Capabilities) -> (r: Machine)
        ensures
            r@ == idle(env@, caps),
    {
        let stack: Vec<Frame> = Vec::new();
        assert(stack_view(stack@) =~= Seq::empty());
        Machine { env, stack, control: Control::Return(Value::Unit), caps }
    }

    /// The environment of the machine.
    pub fn env(&self) -> (r: &Environment)
        ensures
            r@ == self@.env,
    {
        &self.env
    }

    /// Gives the environment back, and ends the machine.
    pub fn into_env(self) -> (r: Environment)
        ensures
            r@ == self@.env,
    {
        self.env
    }

    /// Sets the machine out on the script `text`, which is read whole
    /// first: a script that does not read makes the machine fail with
    /// the error of the reading, and none of its forms is evaluated. The
    /// machine is meant to have nothing at hand: the script runs on top
    /// of what is on the stack, in place of what the machine was about
    /// to do.
    pub fn load(&mut self, text: &str)
        ensures
            final(self)@ == start_script(old(self)@, text@, false),
    {
        self.script(text, false);
    }

    /// Sets the machine out on the script in the file at `path`, which
    /// the host is asked to read. The machine is meant to have nothing at
    /// hand, as for `load`.
    pub fn load_file(&mut self, path: &str)
        ensures
            final(self)@ == start_file(old(self)@, path@, false),
    {
        self.file(String::from_str(path), false);
    }

    /// Sets the machine out on the form `node`. The machine is meant to
    /// have nothing at hand, as for `load`.
    pub fn start(&mut self, node: AstNode)
        ensures
            final(self)@ == old(self)@.go(ControlV::Eval(node@)),
    {
        self.go(Control::Eval(node));
    }

    fn go(&mut self, control: Control)
        ensures
            final(self)@ == old(self)@.go(control@),
    {
        self.control = control;
    }

    fn push(&mut self, frame: Frame)
        ensures
            final(self)@ == old(self)@.push(frame@),
    {
        self.stack.push(frame);
        assert(stack_view(self.stack@) =~= stack_view(old(self).stack@).push(frame@));
    }

    fn fail(&mut self, msg: String)
        ensures
            final(self)@ == old(self)@.fail(msg@),
    {
        self.control = Control::Raise(Error::EvalError(msg));
    }

    fn script(&mut self, text: &str, discard: bool)
        ensures
            final(self)@ == start_script(old(self)@, text@, discard),
    {
        match parse_script(text) {
            Ok(forms) => {
                let ghost fv = nodes_view(forms@);
                proof {
                    lemma_nodes_view(forms@);
                }
                let rest = reversed(forms);
                proof {
                    lemma_nodes_view(rest@);
                    assert(nodes_view(rest@) =~= fv.reverse());
                }
                self.push(Frame::Script { rest, discard });
                self.go(Control::Return(Value::Unit));
            },
            Err(e) => {
                self.go(Control::Raise(e));
            },
        }
    }

    fn file(&mut self, path: String, discard: bool)
        ensures
            final(self)@ == start_file(old(self)@, path@, discard),
    {
        self.push(Frame::Pending(Pending::Include { path: path.clone(), discard }));
        self.go(Control::Await(Request::ReadFile(path)));
    }

    fn form_if(&mut self, l: Vec<AstNode>)
        ensures
            final(self)@ == if_spec(old(self)@, nodes_view(l@)),
    {
        let mut l = l;
        let ghost lv = nodes_view(l@);
        proof {
            lemma_nodes_view(l@);
        }
        if l.len() < 2 {
            self.fail(String::from_str("missing test"));
        } else if l.len() < 3 {
            self.fail(String::from_str("missing conseq"));
        } else if l.len() < 4 {
            self.fail(String::from_str("missing alt"));
        } else {
            l.truncate(4);
            let alt = l.pop().unwrap();
            let conseq = l.pop().unwrap();
            let test = l.pop().unwrap();
            self.push(Frame::If { conseq, alt });
            self.go(Control::Eval(test));
        }
    }

    fn form_define(&mut self, l: Vec<AstNode>)
        ensures
            final(self)@ == define_spec(old(self)@, nodes_view(l@)),
    {
        let mut l = l;
        proof {
            lemma_nodes_view(l@);
        }
        if l.len() < 2 {
            self.fail(String::from_str("no symbol for define"));
        } else if l.len() < 3 {
            self.fail(String::from_str("no value for define"));
        } else {
            l.truncate(3);
            let val = l.pop().unwrap();
            let symbol = l.pop().unwrap();
            match symbol {
                AstNode::Symbol(name) => {
                    self.push(Frame::Define { name });
                    self.go(Control::Eval(val));
                },
                _ => {
                    self.go(Control::Return(Value::Unit));
                },
            }
        }
    }

    fn form_lambda(&mut self, l: Vec<AstNode>)
        ensures
            final(self)@ == lambda_form_spec(old(self)@, nodes_view(l@)),
    {
        let mut items = l;
        let ghost lv = nodes_view(l@);
        proof {
            lemma_nodes_view(l@);
        }
        if items.len() < 2 {
            self.fail(String::from_str("no args for lambda"));
            return ;
        }
        let body = items.split_off(2);
        proof {
            lemma_nodes_view(body@);
            assert(nodes_view(body@) =~= lv.subrange(2, lv.len() as int));
        }
        let args = items.pop().unwrap();
        match args {
            AstNode::List(params) => {
                let ghost pv = nodes_view(params@);
                proof {
                    lemma_nodes_view(params@);
                }
                let mut vars: Vec<String> = Vec::new();
                let mut i: usize = 0;
                while i < params.len()
                    invariant
                        i <= params.len(),
                        pv == nodes_view(params@),
                        lv == nodes_view(l@),
                        lv.len() >= 2,
                        lv[1] == NodeV::List(pv),
                        pv.len() == params.len(),
                        forall|j: int| 0 <= j < params.len() ==> pv[j] == params[j]@,
                        first_non_symbol(pv, 0) == first_non_symbol(pv, i as int),
                        vars.len() == i,
                        forall|j: int| 0 <= j < i ==> pv[j] == NodeV::Symbol(vars[j]@),
                        self@ == old(self)@,
                    decreases params.len() - i,
                {
                    match &params[i] {
                        AstNode::Symbol(s) => {
                            vars.push(s.clone());
                        },
                        other => {
                            self.fail(concat2("not a symbol: ", other.to_string().as_str()));
                            return ;
                        },
                    }
                    i += 1;
                }
                assert(crate::value::names_view(vars@) =~= symbol_names(pv));
                self.go(Control::Return(Value::Lambda(Lambda::new(vars, body))));
            },
            other => {
                self.fail(concat2("not a list: ", other.to_string().as_str()));
            },
        }
    }

    fn form_progn(&mut self, l: Vec<AstNode>)
        ensures
            final(self)@ == progn_spec(old(self)@, nodes_view(l@)),
    {
        proof {
            lemma_nodes_view(l@);
        }
        if l.len() < 2 {
            self.fail(String::from_str("no value"));
        } else {
            let (first, rest) = take_from(l, 1);
            self.push(Frame::Progn { rest });
            self.go(Control::Eval(first));
        }
    }

    /// The string literal that the form named `word` takes.
    fn literal(&mut self, l: Vec<AstNode>, word: &str) -> (r: Option<String>)
        ensures
            match literal_operand(old(self)@, nodes_view(l@), word@) {
                Ok(t) => r is Some && r->0@ == t && final(self)@ == old(self)@,
                Err(failed) => r is None && final(self)@ == failed,
            },
    {
        let mut l = l;
        proof {
            lemma_nodes_view(l@);
        }
        if l.len() < 2 {
            self.fail(concat2("no args for ", word));
            return None;
        }
        l.truncate(2);
        let operand = l.pop().unwrap();
        match operand {
            AstNode::Value(Value::String(t)) => Some(t),
            AstNode::Value(v) => {
                let node = AstNode::Value(v);
                self.fail(concat2(node.to_string().as_str(), " is not a string"));
                None
            },
            other => {
                self.fail(concat2(other.to_string().as_str(), " is not a value"));
                None
            },
        }
    }

    fn form_eval(&mut self, l: Vec<AstNode>)
        ensures
            final(self)@ == eval_form_spec(old(self)@, nodes_view(l@)),
    {
        match self.literal(l, "eval") {
            Some(text) => {
                self.script(text.as_str(), false);
            },
            None => {},
        }
    }

    fn form_file(&mut self, l: Vec<AstNode>)
        ensures
            final(self)@ == file_form_spec(old(self)@, nodes_view(l@)),
    {
        match self.literal(l, "include") {
            Some(path) => {
                self.file(path, true);
            },
            None => {},
        }
    }

    fn form_call(&mut self, head: String, l: Vec<AstNode>)
        ensures
            final(self)@ == call_form_spec(old(self)@, head@, nodes_view(l@)),
    {
        proof {
            lemma_nodes_view(l@);
        }
        if l.len() < 2 {
            let args: Vec<Value> = Vec::new();
            proof {
                lemma_values_view(args@);
                assert(values_view(args@) =~= Seq::empty());
            }
            self.go(Control::Call { name: head, args, forwarded: false });
        } else {
            let (first, rest) = take_from(l, 1);
            let done: Vec<Value> = Vec::new();
            proof {
                lemma_values_view(done@);
                assert(values_view(done@) =~= Seq::empty());
            }
            self.push(Frame::Args { head, rest, done });
            self.go(Control::Eval(first));
        }
    }

    /// Evaluates the list `l`, whose head is the symbol `symbol`.
    fn eval_list(&mut self, symbol: String, l: Vec<AstNode>)
        ensures
            final(self)@ == form_spec(old(self)@, symbol@, nodes_view(l@)),
    {
        let s = symbol.as_str();
        if s.eq("if") {
            self.form_if(l);
        } else if s.eq("define") {
            self.form_define(l);
        } else if s.eq("lambda") {
            self.form_lambda(l);
        } else if s.eq("progn") {
            self.form_progn(l);
        } else if s.eq("eval") && self.caps.eval {
            self.form_eval(l);
        } else if s.eq("include") && self.caps.files {
            self.form_file(l);
        } else {
            self.form_call(symbol, l);
        }
    }

    /// Makes the first step of evaluating `node`.
    fn eval(&mut self, node: AstNode)
        ensures
            final(self)@ == eval_spec(old(self)@, node@),
    {
        match node {
            AstNode::Value(v) => {
                self.go(Control::Return(v));
            },
            AstNode::Float(t) => {
                self.push(Frame::Pending(Pending::Literal));
                self.go(Control::Await(Request::ParseFloat(t)));
            },
            AstNode::Symbol(s) => {
                let found = match self.env.get_var(s.as_str()) {
                    None => None,
                    Some(var) => Some(var.val()),
                };
                match found {
                    None => {
                        self.fail(concat2("symbol not found: ", s.as_str()));
                    },
                    Some(Some(v)) => {
                        self.go(Control::Return(v));
                    },
                    Some(None) => {
                        self.go(Control::Return(Value::SymbolRef(s)));
                    },
                }
            },
            AstNode::List(l) => {
                proof {
                    lemma_nodes_view(l@);
                }
                if l.len() == 0 {
                    self.go(Control::Return(Value::Unit));
                } else {
                    let head = match &l[0] {
                        AstNode::Symbol(s) => Some(s.clone()),
                        _ => None,
                    };
                    match head {
                        Some(symbol) => {
                            self.eval_list(symbol, l);
                        },
                        None => {
                            let node = AstNode::List(l);
                            self.fail(
                                concat2("invalid at this point in time: ", node.to_string().as_str()),
                            );
                        },
                    }
                }
            },
        }
    }

    /// Takes up what invoking a binding came to.
    fn apply(&mut self, inv: Invoke)
        ensures
            final(self)@ == apply_spec(old(self)@, inv@),
    {
        match inv {
            Invoke::Value(v) => {
                self.go(Control::Return(v));
            },
            Invoke::Fail(e) => {
                self.go(Control::Raise(e));
            },
            Invoke::Ask(req, p) => {
                self.push(Frame::Pending(p));
                self.go(Control::Await(req));
            },
            Invoke::Enter { scope, body } => {
                proof {
                    lemma_nodes_view(body@);
                }
                if body.len() == 0 {
                    self.fail(String::from_str("no value"));
                } else {
                    let (first, rest) = take_from(body, 0);
                    self.env.push_scope(scope);
                    self.push(Frame::Body { rest });
                    self.go(Control::Eval(first));
                }
            },
            Invoke::Forward { name, args } => {
                self.go(Control::Call { name, args, forwarded: true });
            },
            Invoke::Script { text, discard } => {
                self.script(text.as_str(), discard);
            },
        }
    }

    /// Calls the binding `name` with `args`.
    fn call(&mut self, name: String, args: Vec<Value>, forwarded: bool)
        ensures
            final(self)@ == call_spec(old(self)@, name@, values_view(args@), forwarded),
    {
        let inv = match self.env.get_var(name.as_str()) {
            None => None,
            Some(var) => Some(var.eval(&self.env, args)),
        };
        match inv {
            None => {
                if forwarded {
                    self.fail(concat2("unknown symbol: ", name.as_str()));
                } else {
                    self.fail(concat2("proc not found: ", name.as_str()));
                }
            },
            Some(inv) => {
                self.apply(inv);
            },
        }
    }

    /// Goes on with the forms `rest` of a sequence, of which a form gave
    /// `v`.
    fn sequence(&mut self, rest: Vec<AstNode>, v: Value, body: bool)
        ensures
            final(self)@ == sequence_spec(old(self)@, nodes_view(rest@), v@, body),
    {
        let mut rest = rest;
        let ghost rv = nodes_view(rest@);
        proof {
            lemma_nodes_view(rest@);
        }
        match rest.pop() {
            None => {
                if body {
                    self.env.pop_scope();
                }
                self.go(Control::Return(v));
            },
            Some(next) => {
                proof {
                    lemma_nodes_view(rest@);
                    assert(nodes_view(rest@) =~= rv.drop_last());
                }
                if body {
                    self.push(Frame::Body { rest });
                } else {
                    self.push(Frame::Progn { rest });
                }
                self.go(Control::Eval(next));
            },
        }
    }

    /// Hands the value `v` to `frame`, which was taken off the stack.
    fn deliver(&mut self, frame: Frame, v: Value)
        ensures
            final(self)@ == deliver_spec(old(self)@, frame@, v@),
    {
        match frame {
            Frame::If { conseq, alt } => {
                let chosen = match &v {
                    Value::Integer(i) => *i == 1,
                    _ => false,
                };
                if chosen {
                    self.go(Control::Eval(conseq));
                } else {
                    self.go(Control::Eval(alt));
                }
            },
            Frame::Define { name } => {
                self.env.insert_var(name.as_str(), Variable::Const(ConstVal::wrap(v)));
                self.go(Control::Return(Value::Unit));
            },
            Frame::Progn { rest } => {
                self.sequence(rest, v, false);
            },
            Frame::Body { rest } => {
                self.sequence(rest, v, true);
            },
            Frame::Args { head, rest, done } => {
                let mut rest = rest;
                let mut done = done;
                let ghost rv = nodes_view(rest@);
                let ghost dv = done@;
                proof {
                    lemma_nodes_view(rest@);
                }
                done.push(v);
                proof {
                    lemma_values_view_push(dv, v);
                }
                match rest.pop() {
                    None => {
                        self.go(Control::Call { name: head, args: done, forwarded: false });
                    },
                    Some(next) => {
                        proof {
                            lemma_nodes_view(rest@);
                            assert(nodes_view(rest@) =~= rv.drop_last());
                        }
                        self.push(Frame::Args { head, rest, done });
                        self.go(Control::Eval(next));
                    },
                }
            },
            Frame::Script { rest, discard } => {
                let mut rest = rest;
                let ghost rv = nodes_view(rest@);
                proof {
                    lemma_nodes_view(rest@);
                }
                match rest.pop() {
                    None => {
                        if discard {
                            self.go(Control::Return(Value::Unit));
                        } else {
                            self.go(Control::Return(v));
                        }
                    },
                    Some(node) => {
                        proof {
                            lemma_nodes_view(rest@);
                            assert(nodes_view(rest@) =~= rv.drop_last());
                        }
                        self.push(Frame::Script { rest, discard });
                        self.go(Control::Eval(node));
                    },
                }
            },
            Frame::Pending(_) => {
                self.go(Control::Return(v));
            },
        }
    }

    /// Lets the error `e` pass `frame`, which was taken off the stack.
    fn unwind(&mut self, frame: Frame, e: Error)
        ensures
            final(self)@ == unwind_spec(old(self)@, frame@, e@),
    {
        match frame {
            Frame::Body { .. } => {
                self.env.pop_scope();
                self.go(Control::Raise(e));
            },
            _ => {
                self.go(Control::Raise(e));
            },
        }
    }

    /// Takes the frame off the top of the stack.
    fn pop(&mut self) -> (r: Option<Frame>)
        ensures
            match r {
                None => old(self)@.stack.len() == 0 && final(self)@ == old(self)@,
                Some(f) => old(self)@.stack.len() > 0 && f@ == old(self)@.stack.last()
                    && final(self)@ == (MachineV {
                    stack: old(self)@.stack.drop_last(),
                    ..old(self)@
                }),
            },
    {
        let r = self.stack.pop();
        assert(r is Some ==> stack_view(self.stack@) =~= stack_view(old(self).stack@).drop_last());
        r
    }

    /// Makes one step. A machine that waits for the host, or whose run is
    /// over, stays as it is and says so.
    pub fn step(&mut self) -> (s: Status)
        ensures
            final(self)@ == step_spec(old(self)@).0,
            s@ == step_spec(old(self)@).1,
    {
        let mut control = Control::Return(Value::Unit);
        core::mem::swap(&mut self.control, &mut control);
        match control {
            Control::Await(req) => {
                let s = Status::Waiting(req.clone());
                self.control = Control::Await(req);
                s
            },
            Control::Eval(node) => {
                self.eval(node);
                Status::Running
            },
            Control::Call { name, args, forwarded } => {
                self.call(name, args, forwarded);
                Status::Running
            },
            Control::Return(v) => {
                match self.pop() {
                    None => {
                        let s = Status::Finished(Ok(v.clone()));
                        self.control = Control::Return(v);
                        s
                    },
                    Some(frame) => {
                        self.deliver(frame, v);
                        Status::Running
                    },
                }
            },
            Control::Raise(e) => {
                match self.pop() {
                    None => {
                        let s = Status::Finished(Err(e.clone()));
                        self.control = Control::Raise(e);
                        s
                    },
                    Some(frame) => {
                        self.unwind(frame, e);
                        Status::Running
                    },
                }
            },
        }
    }

    /// Hands the machine the host's answer to the request it waits on. A
    /// machine that does not wait lets the reply pass.
    pub fn reply(&mut self, reply: Reply)
        ensures
            final(self)@ == reply_spec(old(self)@, reply@),
    {
        let waits = match &self.control {
            Control::Await(_) => true,
            _ => false,
        };
        if !waits {
            return ;
        }
        match self.pop() {
            None => {},
            Some(Frame::Pending(p)) => {
                let inv = p.resume(reply);
                self.apply(inv);
            },
            Some(frame) => {
                self.push(frame);
                assert(self@.stack =~= old(self)@.stack);
            },
        }
    }

    /// Whether the machine has stopped: its run is over, or it waits for
    /// the host.
    pub fn has_stopped(&self) -> (r: bool)
        ensures
            r == stopped(self@),
    {
        match &self.control {
            Control::Await(_) => true,
            Control::Return(_) => self.stack.len() == 0,
            Control::Raise(_) => self.stack.len() == 0,
            _ => false,
        }
    }

    /// Steps the machine until it has stopped or `fuel` steps are made,
    /// and says how it stands then.
    pub fn run(&mut self, fuel: usize) -> (s: Status)
        ensures
            final(self)@ == run_spec(old(self)@, fuel as nat).0,
            s@ == run_spec(old(self)@, fuel as nat).1,
    {
        let mut left = fuel;
        loop
            invariant
                run_spec(old(self)@, fuel as nat) == run_spec(self@, left as nat),
            decreases left,
        {
            if self.has_stopped() {
                return self.step();
            }
            if left == 0 {
                return Status::Running;
            }
            self.step();
            left -= 1;
        }
    }
}

} // verus!
