//! Environments: the chain of scopes in which names are resolved, the
//! bindings that the scopes hold, and what invoking a binding asks of the
//! evaluator.

use vstd::prelude::*;
use crate::ast::{AstNode, NodeV, clone_nodes, nodes_view};
use crate::text::{concat2, reversed, strip_line_end, without_line_end};
use crate::value::{
    Float, FloatV, Lambda, Value, ValueV, arity_error, clone_values, lemma_values_view,
    names_view, values_view, wrong_count,
};
use crate::{Error, ErrorV};

pub mod arithmetic;
pub mod io;
pub mod list;
pub mod logical;
pub mod misc;
pub mod string;

verus! {

/// The operations of arithmetic on two numbers.
#[derive(Debug, PartialEq, Eq, Clone, Copy)]
pub enum ArithOp {
    Add,
    Sub,
    Mul,
    Div,
    Rem,
}

/// A number as the host takes it for floating-point arithmetic: an
/// integer, which the host widens, or the bit pattern of a double.
#[derive(Debug, PartialEq, Eq, Clone, Copy)]
pub enum Operand {
    Integer(isize),
    Float(u64),
}

/// A piece of work that only the host can do.
#[derive(Debug, PartialEq)]
pub enum Request {
    /// Turn the text of a float literal into a number.
    ParseFloat(String),
    /// Compute `lhs op rhs` in double precision.
    FloatArith { op: ArithOp, lhs: Operand, rhs: Operand },
    /// Write the text to the output.
    Print(String),
    /// Read one line from the input.
    ReadLine,
    /// Read the file at the path.
    ReadFile(String),
    /// Run the command in the host's shell and capture its output.
    System(String),
    /// Invoke the operation of the host that is named `name`.
    Call { name: String, args: Vec<Value> },
}

/// The mathematical value of a [`Request`].
pub ghost enum RequestV {
    ParseFloat(Seq<char>),
    FloatArith { op: ArithOp, lhs: Operand, rhs: Operand },
    Print(Seq<char>),
    ReadLine,
    ReadFile(Seq<char>),
    System(Seq<char>),
    Call { name: Seq<char>, args: Seq<ValueV> },
}

impl View for Request {
    type V = RequestV;

    open spec fn view(&self) -> RequestV {
        match self {
            Request::ParseFloat(t) => RequestV::ParseFloat(t@),
            Request::FloatArith { op, lhs, rhs } => RequestV::FloatArith {
                op: *op,
                lhs: *lhs,
                rhs: *rhs,
            },
            Request::Print(t) => RequestV::Print(t@),
            Request::ReadLine => RequestV::ReadLine,
            Request::ReadFile(p) => RequestV::ReadFile(p@),
            Request::System(c) => RequestV::System(c@),
            Request::Call { name, args } => RequestV::Call {
                name: name@,
                args: values_view(args@),
            },
        }
    }
}

impl Clone for Request {
    fn clone(&self) -> (r: Self)
        ensures
            r@ == self@,
    {
        match self {
            Request::ParseFloat(t) => Request::ParseFloat(t.clone()),
            Request::FloatArith { op, lhs, rhs } => Request::FloatArith {
                op: *op,
                lhs: *lhs,
                rhs: *rhs,
            },
            Request::Print(t) => Request::Print(t.clone()),
            Request::ReadLine => Request::ReadLine,
            Request::ReadFile(p) => Request::ReadFile(p.clone()),
            Request::System(c) => Request::System(c.clone()),
            Request::Call { name, args } => Request::Call {
                name: name.clone(),
                args: clone_values(args),
            },
        }
    }
}

/// What the host answers to a [`Request`].
#[derive(Debug, PartialEq)]
pub enum Reply {
    /// The number asked for.
    Float(Float),
    /// The text that was read or captured.
    Text(String),
    /// The value that the operation of the host gives.
    Value(Value),
    /// The output was written.
    Done,
    /// The work failed, with the host's description of the failure.
    Failed(String),
}

/// The mathematical value of a [`Reply`].
pub ghost enum ReplyV {
    Float(FloatV),
    Text(Seq<char>),
    Value(ValueV),
    Done,
    Failed(Seq<char>),
}

impl View for Reply {
    type V = ReplyV;

    open spec fn view(&self) -> ReplyV {
        match self {
            Reply::Float(f) => ReplyV::Float(f@),
            Reply::Text(t) => ReplyV::Text(t@),
            Reply::Value(v) => ReplyV::Value(v@),
            Reply::Done => ReplyV::Done,
            Reply::Failed(m) => ReplyV::Failed(m@),
        }
    }
}

/// What goes on once the host has answered a request.
#[derive(Debug, PartialEq)]
pub enum Pending {
    /// The number is the value of a float literal.
    Literal,
    /// The number is the running result of an arithmetic fold that goes on
    /// over `rest`.
    Fold { op: ArithOp, rest: Vec<Value> },
    /// The output of `print` or `debug` was written.
    Print,
    /// The text is the line that `read-line` gives.
    ReadLine,
    /// The text is the contents that `read-file` gives.
    ReadFile { path: String },
    /// The text is the output that `system` gives.
    System { command: String },
    /// The value is the result of an operation of the host.
    Call,
    /// The text is the script of the file at `path`; `discard` says
    /// whether the script gives the unit value in place of the value of
    /// its last form.
    Include { path: String, discard: bool },
}

/// The mathematical value of a [`Pending`].
pub ghost enum PendingV {
    Literal,
    Fold { op: ArithOp, rest: Seq<ValueV> },
    Print,
    ReadLine,
    ReadFile { path: Seq<char> },
    System { command: Seq<char> },
    Call,
    Include { path: Seq<char>, discard: bool },
}

impl View for Pending {
    type V = PendingV;

    open spec fn view(&self) -> PendingV {
        match self {
            Pending::Literal => PendingV::Literal,
            Pending::Fold { op, rest } => PendingV::Fold { op: *op, rest: values_view(rest@) },
            Pending::Print => PendingV::Print,
            Pending::ReadLine => PendingV::ReadLine,
            Pending::ReadFile { path } => PendingV::ReadFile { path: path@ },
            Pending::System { command } => PendingV::System { command: command@ },
            Pending::Call => PendingV::Call,
            Pending::Include { path, discard } => PendingV::Include {
                path: path@,
                discard: *discard,
            },
        }
    }
}

/// The builtin operations.
#[derive(Debug, PartialEq, Eq, Clone, Copy)]
pub enum Builtin {
    Add,
    Sub,
    Mul,
    Div,
    Mod,
    Eq,
    Lt,
    Gt,
    Not,
    And,
    Or,
    Begin,
    MkList,
    Car,
    Cdr,
    Cons,
    Length,
    Endp,
    Print,
    ReadLine,
    ReadFile,
    ParseInt,
    System,
    Split,
    Lines,
    Concat,
    Join,
    ToString,
    DebugPrint,
    TypeOf,
    LocalEnv,
    GlobalEnv,
}

/// A binding that holds a value: a constant, a lambda or a reference to
/// another binding.
#[derive(Debug, PartialEq)]
pub struct ConstVal(pub Value);

impl ConstVal {
    /// The binding that holds `value`.
    pub fn wrap(value: Value) -> (r: ConstVal)
        ensures
            r.0 == value,
    {
        ConstVal(value)
    }
}

impl From<Value> for ConstVal {
    fn from(value: Value) -> (r: Self) {
        ConstVal::wrap(value)
    }
}

impl vstd::std_specs::convert::FromSpecImpl<Value> for ConstVal {
    open spec fn obeys_from_spec() -> bool {
        true
    }

    open spec fn from_spec(value: Value) -> Self {
        ConstVal(value)
    }
}

/// What a name is bound to: anything that can be invoked with arguments.
#[derive(Debug, PartialEq)]
pub enum Variable {
    /// An operation of the library.
    Builtin(Builtin),
    /// A value: a constant, a lambda or a reference to another binding.
    Const(ConstVal),
    /// An operation that the host supplies under this name.
    Host(String),
}

/// The mathematical value of a [`Variable`].
pub ghost enum VariableV {
    Builtin(Builtin),
    Const(ValueV),
    Host(Seq<char>),
}

impl View for Variable {
    type V = VariableV;

    open spec fn view(&self) -> VariableV {
        match self {
            Variable::Builtin(b) => VariableV::Builtin(*b),
            Variable::Const(c) => VariableV::Const(c.0@),
            Variable::Host(name) => VariableV::Host(name@),
        }
    }
}

impl Clone for Variable {
    fn clone(&self) -> (r: Self)
        ensures
            r@ == self@,
    {
        match self {
            Variable::Builtin(b) => Variable::Builtin(*b),
            Variable::Const(c) => Variable::Const(ConstVal(c.0.clone())),
            Variable::Host(name) => Variable::Host(name.clone()),
        }
    }
}

/// One scope: its bindings, each under its name.
pub type Scope = Vec<(String, Variable)>;

/// The mathematical value of a scope.
pub type ScopeV = Seq<(Seq<char>, VariableV)>;

/// The mathematical value of an environment: its scopes, innermost last.
pub type EnvV = Seq<ScopeV>;

/// The mathematical value of the bindings of a scope.
pub open spec fn scope_view(s: Seq<(String, Variable)>) -> ScopeV {
    Seq::new(s.len(), |i: int| (s[i].0@, s[i].1@))
}

/// The mathematical values of a sequence of scopes.
pub open spec fn env_view(e: Seq<Scope>) -> EnvV {
    Seq::new(e.len(), |i: int| scope_view(e[i]@))
}

/// What invoking a binding comes to.
#[derive(Debug, PartialEq)]
pub enum Invoke {
    /// The call gives this value.
    Value(Value),
    /// The call fails with this error.
    Fail(Error),
    /// The host has to answer the request, and `Pending` says what the
    /// answer is for.
    Ask(Request, Pending),
    /// The call goes on with the forms of `body`, in a new scope that
    /// holds `scope`.
    Enter { scope: Scope, body: Vec<AstNode> },
    /// The call goes on as a call of the binding `name`.
    Forward { name: String, args: Vec<Value> },
    /// The call goes on with the forms of the script `text`; `discard`
    /// says whether the values of the forms are dropped.
    Script { text: String, discard: bool },
}

/// The mathematical value of an [`Invoke`].
pub ghost enum InvokeV {
    Value(ValueV),
    Fail(ErrorV),
    Ask(RequestV, PendingV),
    Enter { scope: ScopeV, body: Seq<NodeV> },
    Forward { name: Seq<char>, args: Seq<ValueV> },
    Script { text: Seq<char>, discard: bool },
}

impl View for Invoke {
    type V = InvokeV;

    open spec fn view(&self) -> InvokeV {
        match self {
            Invoke::Value(v) => InvokeV::Value(v@),
            Invoke::Fail(e) => InvokeV::Fail(e@),
            Invoke::Ask(r, p) => InvokeV::Ask(r@, p@),
            Invoke::Enter { scope, body } => InvokeV::Enter {
                scope: scope_view(scope@),
                body: nodes_view(body@),
            },
            Invoke::Forward { name, args } => InvokeV::Forward {
                name: name@,
                args: values_view(args@),
            },
            Invoke::Script { text, discard } => InvokeV::Script { text: text@, discard: *discard },
        }
    }
}

/// The place of the first binding of `name` in `scope` at or after
/// `from`; the length of the scope where there is none.
pub open spec fn scope_index(scope: ScopeV, name: Seq<char>, from: int) -> int
    decreases scope.len() - from,
{
    if from < 0 || from >= scope.len() {
        scope.len() as int
    } else if scope[from].0 == name {
        from
    } else {
        scope_index(scope, name, from + 1)
    }
}

/// What `name` is bound to in `scope`, if it is bound there.
pub open spec fn scope_lookup(scope: ScopeV, name: Seq<char>) -> Option<VariableV> {
    let i = scope_index(scope, name, 0);
    if i < scope.len() {
        Some(scope[i].1)
    } else {
        None
    }
}

/// What `name` resolves to in `env`: its binding in the innermost scope
/// that binds it.
pub open spec fn env_lookup(env: EnvV, name: Seq<char>) -> Option<VariableV>
    decreases env.len(),
{
    if env.len() == 0 {
        None
    } else {
        match scope_lookup(env.last(), name) {
            Some(v) => Some(v),
            None => env_lookup(env.drop_last(), name),
        }
    }
}

/// `scope` with `name` bound to `var`, in place of what it was bound to
/// there before.
pub open spec fn scope_insert(scope: ScopeV, name: Seq<char>, var: VariableV) -> ScopeV {
    let i = scope_index(scope, name, 0);
    if i < scope.len() {
        scope.update(i, (name, var))
    } else {
        scope.push((name, var))
    }
}

/// `env` with `name` bound to `var` in its innermost scope. The outer
/// scopes stay as they are.
pub open spec fn env_insert(env: EnvV, name: Seq<char>, var: VariableV) -> EnvV {
    if env.len() == 0 {
        seq![scope_insert(Seq::empty(), name, var)]
    } else {
        env.update(env.len() - 1, scope_insert(env.last(), name, var))
    }
}

/// The names that `scope` binds, in its order.
pub open spec fn scope_names(scope: ScopeV) -> Seq<Seq<char>> {
    Seq::new(scope.len(), |i: int| scope[i].0)
}

/// The names of the innermost scope of `env`.
pub open spec fn local_names(env: EnvV) -> Seq<Seq<char>> {
    if env.len() == 0 {
        Seq::empty()
    } else {
        scope_names(env.last())
    }
}

/// Every name that is bound in `env`: those of the innermost scope first,
/// then those of each scope around it. A name that several scopes bind
/// comes once for each.
pub open spec fn all_names(env: EnvV) -> Seq<Seq<char>>
    decreases env.len(),
{
    if env.len() == 0 {
        Seq::empty()
    } else {
        scope_names(env.last()) + all_names(env.drop_last())
    }
}

/// The place of the first binding of `name` in `scope`.
fn find_in_scope(scope: &Scope, name: &str) -> (i: usize)
    ensures
        i == scope_index(scope_view(scope@), name@, 0),
        i <= scope.len(),
{
    let mut i: usize = 0;
    while i < scope.len()
        invariant
            i <= scope.len(),
            scope_index(scope_view(scope@), name@, 0) == scope_index(
                scope_view(scope@),
                name@,
                i as int,
            ),
        decreases scope.len() - i,
    {
        if scope[i].0.as_str().eq(name) {
            return i;
        }
        i += 1;
    }
    i
}

/// Binds `name` to `var` in `scope`, in place of what the name was
/// bound to there.
pub fn bind(scope: &mut Scope, name: &str, var: Variable)
    ensures
        scope_view(final(scope)@) == scope_insert(scope_view(old(scope)@), name@, var@),
{
    let i = find_in_scope(scope, name);
    if i < scope.len() {
        scope.set(i, (String::from_str(name), var));
    } else {
        scope.push((String::from_str(name), var));
    }
    assert(scope_view(scope@) =~= scope_insert(scope_view(old(scope)@), name@, var@));
}

/// A copy of a scope.
fn clone_scope(scope: &Scope) -> (r: Scope)
    ensures
        scope_view(r@) == scope_view(scope@),
{
    let mut out: Scope = Vec::new();
    let mut i: usize = 0;
    while i < scope.len()
        invariant
            i <= scope.len(),
            out.len() == i,
            forall|j: int| 0 <= j < i ==> out[j].0@ == scope[j].0@ && out[j].1@ == scope[j].1@,
        decreases scope.len() - i,
    {
        out.push((scope[i].0.clone(), scope[i].1.clone()));
        i += 1;
    }
    assert(scope_view(out@) =~= scope_view(scope@));
    out
}

/// The bit pattern of the double nearest to pi.
pub const PI_BITS: u64 = 0x400921FB54442D18;

/// The value of `pi`.
pub open spec fn pi_value() -> ValueV {
    ValueV::Float(FloatV { bits: PI_BITS, text: "3.141592653589793"@ })
}

/// The bindings of the default environment: every builtin under its
/// name, and the constant `pi`.
pub open spec fn default_bindings() -> ScopeV {
    Seq::<(Seq<char>, VariableV)>::empty()
        .push(("+"@, VariableV::Builtin(Builtin::Add)))
        .push(("-"@, VariableV::Builtin(Builtin::Sub)))
        .push(("*"@, VariableV::Builtin(Builtin::Mul)))
        .push(("/"@, VariableV::Builtin(Builtin::Div)))
        .push(("mod"@, VariableV::Builtin(Builtin::Mod)))
        .push(("=="@, VariableV::Builtin(Builtin::Eq)))
        .push(("<"@, VariableV::Builtin(Builtin::Lt)))
        .push((">"@, VariableV::Builtin(Builtin::Gt)))
        .push(("not"@, VariableV::Builtin(Builtin::Not)))
        .push(("or"@, VariableV::Builtin(Builtin::Or)))
        .push(("and"@, VariableV::Builtin(Builtin::And)))
        .push(("pi"@, VariableV::Const(pi_value())))
        .push(("begin"@, VariableV::Builtin(Builtin::Begin)))
        .push(("list"@, VariableV::Builtin(Builtin::MkList)))
        .push(("car"@, VariableV::Builtin(Builtin::Car)))
        .push(("cdr"@, VariableV::Builtin(Builtin::Cdr)))
        .push(("cons"@, VariableV::Builtin(Builtin::Cons)))
        .push(("length"@, VariableV::Builtin(Builtin::Length)))
        .push(("endp"@, VariableV::Builtin(Builtin::Endp)))
        .push(("read-line"@, VariableV::Builtin(Builtin::ReadLine)))
        .push(("read-file"@, VariableV::Builtin(Builtin::ReadFile)))
        .push(("print"@, VariableV::Builtin(Builtin::Print)))
        .push(("parse-int"@, VariableV::Builtin(Builtin::ParseInt)))
        .push(("system"@, VariableV::Builtin(Builtin::System)))
        .push(("str-split"@, VariableV::Builtin(Builtin::Split)))
        .push(("str-lines"@, VariableV::Builtin(Builtin::Lines)))
        .push(("str-concat"@, VariableV::Builtin(Builtin::Concat)))
        .push(("str-join"@, VariableV::Builtin(Builtin::Join)))
        .push(("to-string"@, VariableV::Builtin(Builtin::ToString)))
        .push(("debug"@, VariableV::Builtin(Builtin::DebugPrint)))
        .push(("type-of"@, VariableV::Builtin(Builtin::TypeOf)))
        .push(("local-env"@, VariableV::Builtin(Builtin::LocalEnv)))
        .push(("global-env"@, VariableV::Builtin(Builtin::GlobalEnv)))
}

/// Puts the binding of `name` to `var` at the end of `scope`.
fn add_binding(scope: &mut Scope, name: &str, var: Variable)
    ensures
        scope_view(final(scope)@) == scope_view(old(scope)@).push((name@, var@)),
{
    scope.push((String::from_str(name), var));
    assert(scope_view(scope@) =~= scope_view(old(scope)@).push((name@, var@)));
}

/// A chain of scopes, innermost last. A name resolves to its binding in
/// the innermost scope that binds it.
#[derive(Debug, PartialEq)]
pub struct Environment {
    scopes: Vec<Scope>,
}

impl View for Environment {
    type V = EnvV;

    closed spec fn view(&self) -> EnvV {
        env_view(self.scopes@)
    }
}

impl Clone for Environment {
    fn clone(&self) -> (r: Self)
        ensures
            r@ == self@,
    {
        let mut scopes: Vec<Scope> = Vec::new();
        let mut i: usize = 0;
        while i < self.scopes.len()
            invariant
                i <= self.scopes.len(),
                scopes.len() == i,
                forall|j: int| 0 <= j < i ==> scope_view(scopes[j]@) == scope_view(self.scopes[j]@),
            decreases self.scopes.len() - i,
        {
            scopes.push(clone_scope(&self.scopes[i]));
            i += 1;
        }
        assert(env_view(scopes@) =~= env_view(self.scopes@));
        Environment { scopes }
    }
}

impl Default for Environment {
    fn default() -> (r: Self)
        ensures
            r@ == seq![Seq::<(Seq<char>, VariableV)>::empty()],
    {
        Environment::empty()
    }
}

impl Environment {
    /// An environment of one scope that binds nothing.
    pub fn empty() -> (r: Environment)
        ensures
            r@ == seq![Seq::<(Seq<char>, VariableV)>::empty()],
    {
        let mut scopes: Vec<Scope> = Vec::new();
        scopes.push(Vec::new());
        assert(scope_view(scopes[0]@) =~= Seq::empty());
        assert(env_view(scopes@) =~= seq![Seq::<(Seq<char>, VariableV)>::empty()]);
        Environment { scopes }
    }

    /// The default environment: one scope that holds `default_bindings`.
    pub fn with_default_content() -> (r: Environment)
        ensures
            r@ == seq![default_bindings()],
    {
        let mut scope: Scope = Vec::new();
        assert(scope_view(scope@) =~= Seq::empty());
        add_binding(&mut scope, "+", Variable::Builtin(Builtin::Add));
        add_binding(&mut scope, "-", Variable::Builtin(Builtin::Sub));
        add_binding(&mut scope, "*", Variable::Builtin(Builtin::Mul));
        add_binding(&mut scope, "/", Variable::Builtin(Builtin::Div));
        add_binding(&mut scope, "mod", Variable::Builtin(Builtin::Mod));
        add_binding(&mut scope, "==", Variable::Builtin(Builtin::Eq));
        add_binding(&mut scope, "<", Variable::Builtin(Builtin::Lt));
        add_binding(&mut scope, ">", Variable::Builtin(Builtin::Gt));
        add_binding(&mut scope, "not", Variable::Builtin(Builtin::Not));
        add_binding(&mut scope, "or", Variable::Builtin(Builtin::Or));
        add_binding(&mut scope, "and", Variable::Builtin(Builtin::And));
        let pi = Value::Float(Float { bits: PI_BITS, text: String::from_str("3.141592653589793") });
        add_binding(&mut scope, "pi", Variable::Const(ConstVal::wrap(pi)));
        add_binding(&mut scope, "begin", Variable::Builtin(Builtin::Begin));
        add_binding(&mut scope, "list", Variable::Builtin(Builtin::MkList));
        add_binding(&mut scope, "car", Variable::Builtin(Builtin::Car));
        add_binding(&mut scope, "cdr", Variable::Builtin(Builtin::Cdr));
        add_binding(&mut scope, "cons", Variable::Builtin(Builtin::Cons));
        add_binding(&mut scope, "length", Variable::Builtin(Builtin::Length));
        add_binding(&mut scope, "endp", Variable::Builtin(Builtin::Endp));
        add_binding(&mut scope, "read-line", Variable::Builtin(Builtin::ReadLine));
        add_binding(&mut scope, "read-file", Variable::Builtin(Builtin::ReadFile));
        add_binding(&mut scope, "print", Variable::Builtin(Builtin::Print));
        add_binding(&mut scope, "parse-int", Variable::Builtin(Builtin::ParseInt));
        add_binding(&mut scope, "system", Variable::Builtin(Builtin::System));
        add_binding(&mut scope, "str-split", Variable::Builtin(Builtin::Split));
        add_binding(&mut scope, "str-lines", Variable::Builtin(Builtin::Lines));
        add_binding(&mut scope, "str-concat", Variable::Builtin(Builtin::Concat));
        add_binding(&mut scope, "str-join", Variable::Builtin(Builtin::Join));
        add_binding(&mut scope, "to-string", Variable::Builtin(Builtin::ToString));
        add_binding(&mut scope, "debug", Variable::Builtin(Builtin::DebugPrint));
        add_binding(&mut scope, "type-of", Variable::Builtin(Builtin::TypeOf));
        add_binding(&mut scope, "local-env", Variable::Builtin(Builtin::LocalEnv));
        add_binding(&mut scope, "global-env", Variable::Builtin(Builtin::GlobalEnv));
        let mut scopes: Vec<Scope> = Vec::new();
        scopes.push(scope);
        assert(env_view(scopes@) =~= seq![default_bindings()]);
        Environment { scopes }
    }

    /// A copy of this environment with a new, empty scope inside it. What
    /// is bound in the copy later does not reach this environment.
    pub fn sub_env(&self) -> (r: Environment)
        ensures
            r@ == self@.push(Seq::empty()),
    {
        let mut r = self.clone();
        let scope: Scope = Vec::new();
        assert(scope_view(scope@) =~= Seq::empty());
        r.push_scope(scope);
        r
    }

    /// The environment that the body of a call runs in: a new scope
    /// inside the one that is active where the call is made.
    pub fn local_env(&self) -> (r: Environment)
        ensures
            r@ == self@.push(Seq::empty()),
    {
        self.sub_env()
    }

    /// Opens the scope `scope` inside the innermost one.
    pub(crate) fn push_scope(&mut self, scope: Scope)
        ensures
            final(self)@ == old(self)@.push(scope_view(scope@)),
    {
        self.scopes.push(scope);
        assert(env_view(self.scopes@) =~= env_view(old(self).scopes@).push(scope_view(scope@)));
    }

    /// Closes the innermost scope, if there is one.
    pub(crate) fn pop_scope(&mut self)
        ensures
            final(self)@ == (if old(self)@.len() > 0 {
                old(self)@.drop_last()
            } else {
                old(self)@
            }),
    {
        self.scopes.pop();
        assert(env_view(self.scopes@) =~= (if old(self)@.len() > 0 {
            old(self)@.drop_last()
        } else {
            old(self)@
        }));
    }

    /// The number of scopes.
    pub fn depth(&self) -> (r: usize)
        ensures
            r == self@.len(),
    {
        self.scopes.len()
    }

    /// What `name` resolves to.
    pub fn get_var(&self, name: &str) -> (r: Option<&Variable>)
        ensures
            match r {
                Some(v) => env_lookup(self@, name@) == Some(v@),
                None => env_lookup(self@, name@) is None,
            },
    {
        let mut k: usize = self.scopes.len();
        assert(env_view(self.scopes@).take(k as int) =~= env_view(self.scopes@));
        while k > 0
            invariant
                k <= self.scopes.len(),
                env_lookup(self@, name@) == env_lookup(self@.take(k as int), name@),
            decreases k,
        {
            let scope = &self.scopes[k - 1];
            let i = find_in_scope(scope, name);
            assert(self@.take(k as int).last() == scope_view(scope@));
            assert(self@.take(k as int).drop_last() =~= self@.take(k - 1));
            if i < scope.len() {
                return Some(&scope[i].1);
            }
            k -= 1;
        }
        None
    }

    /// Binds `name` to `var` in the innermost scope, in place of what the
    /// name was bound to there. The scopes around it stay as they are.
    pub fn insert_var(&mut self, name: &str, var: Variable)
        ensures
            final(self)@ == env_insert(old(self)@, name@, var@),
    {
        let ghost want = env_insert(old(self)@, name@, var@);
        match self.scopes.pop() {
            None => {
                let mut scope: Scope = Vec::new();
                assert(scope_view(scope@) =~= Seq::empty());
                bind(&mut scope, name, var);
                self.scopes.push(scope);
                assert(env_view(self.scopes@) =~= want);
            },
            Some(mut scope) => {
                assert(scope_view(scope@) == old(self)@.last());
                bind(&mut scope, name, var);
                self.scopes.push(scope);
                assert(env_view(self.scopes@) =~= want);
            },
        }
    }

    /// The names that the innermost scope binds.
    pub fn local_vars(&self) -> (r: Vec<String>)
        ensures
            names_view(r@) == local_names(self@),
    {
        let mut out: Vec<String> = Vec::new();
        if self.scopes.len() == 0 {
            assert(names_view(out@) =~= local_names(self@));
            return out;
        }
        let scope = &self.scopes[self.scopes.len() - 1];
        push_names(scope, &mut out);
        assert(names_view(out@) =~= local_names(self@));
        out
    }

    /// Every name that is bound: those of the innermost scope first, then
    /// those of each scope around it.
    pub fn all_vars(&self) -> (r: Vec<String>)
        ensures
            names_view(r@) == all_names(self@),
    {
        let mut out: Vec<String> = Vec::new();
        let mut k: usize = self.scopes.len();
        assert(self@.take(k as int) =~= self@);
        assert(names_view(out@) =~= Seq::empty());
        while k > 0
            invariant
                k <= self.scopes.len(),
                all_names(self@) == names_view(out@) + all_names(self@.take(k as int)),
            decreases k,
        {
            let scope = &self.scopes[k - 1];
            assert(self@.take(k as int).last() == scope_view(scope@));
            assert(self@.take(k as int).drop_last() =~= self@.take(k - 1));
            let ghost before = names_view(out@);
            push_names(scope, &mut out);
            assert(before + (scope_names(scope_view(scope@)) + all_names(self@.take(k - 1))) =~= (
            before + scope_names(scope_view(scope@))) + all_names(self@.take(k - 1)));
            k -= 1;
        }
        assert(names_view(out@) + Seq::<Seq<char>>::empty() =~= names_view(out@));
        out
    }
}

/// Appends the names of `scope` to `out`.
fn push_names(scope: &Scope, out: &mut Vec<String>)
    ensures
        names_view(final(out)@) == names_view(old(out)@) + scope_names(scope_view(scope@)),
{
    let mut i: usize = 0;
    while i < scope.len()
        invariant
            i <= scope.len(),
            out.len() == old(out).len() + i,
            forall|j: int| 0 <= j < old(out).len() ==> out[j]@ == old(out)[j]@,
            forall|j: int| 0 <= j < i ==> out[old(out).len() + j]@ == scope[j].0@,
        decreases scope.len() - i,
    {
        out.push(scope[i].0.clone());
        i += 1;
    }
    assert(names_view(out@) =~= names_view(old(out)@) + scope_names(scope_view(scope@)));
}

/// The scope of a call: the first `k` parameters, each bound to its
/// argument, in their order. Where a name is there twice, the later
/// argument stays.
pub open spec fn bind_params(vars: Seq<Seq<char>>, args: Seq<ValueV>, k: nat) -> ScopeV
    decreases k,
{
    if k == 0 || k > vars.len() || k > args.len() {
        Seq::empty()
    } else {
        scope_insert(
            bind_params(vars, args, (k - 1) as nat),
            vars[k - 1],
            VariableV::Const(args[k - 1]),
        )
    }
}

/// The message of a body or a sequence without forms.
pub open spec fn msg_no_value() -> Seq<char> {
    "no value"@
}

/// What calling a lambda comes to. The call must give as many arguments
/// as the lambda has parameters, and the body must hold a form, else the
/// call is an evaluation error; the body then runs in a new scope that
/// binds the parameters.
pub open spec fn lambda_spec(vars: Seq<Seq<char>>, body: Seq<NodeV>, args: Seq<ValueV>) -> InvokeV {
    if vars.len() != args.len() {
        InvokeV::Fail(arity_error(vars.len(), args.len()))
    } else if body.len() == 0 {
        InvokeV::Fail(ErrorV::Eval(msg_no_value()))
    } else {
        InvokeV::Enter { scope: bind_params(vars, args, vars.len()), body }
    }
}

/// What invoking a binding that holds `v` comes to: a lambda is called, a
/// symbol reference hands the call on to the binding it names, and any
/// other value is given back where the call has no arguments.
pub open spec fn const_spec(v: ValueV, args: Seq<ValueV>) -> InvokeV {
    match v {
        ValueV::Lambda { vars, body } => lambda_spec(vars, body, args),
        ValueV::SymbolRef(name) => InvokeV::Forward { name, args },
        _ => if args.len() != 0 {
            InvokeV::Fail(arity_error(0, args.len()))
        } else {
            InvokeV::Value(v)
        },
    }
}

/// The outcome of an operation that needs no host, as what invoking its
/// binding comes to.
pub open spec fn lift(r: Result<ValueV, ErrorV>) -> InvokeV {
    match r {
        Ok(v) => InvokeV::Value(v),
        Err(e) => InvokeV::Fail(e),
    }
}

/// What invoking the builtin `b` comes to.
pub open spec fn builtin_spec(b: Builtin, env: EnvV, args: Seq<ValueV>) -> InvokeV {
    match b {
        Builtin::Add => arithmetic::arith_spec(ArithOp::Add, args),
        Builtin::Sub => arithmetic::arith_spec(ArithOp::Sub, args),
        Builtin::Mul => arithmetic::arith_spec(ArithOp::Mul, args),
        Builtin::Div => arithmetic::arith_spec(ArithOp::Div, args),
        Builtin::Mod => arithmetic::mod_spec(args),
        Builtin::Eq => lift(arithmetic::eq_spec(args)),
        Builtin::Lt => lift(arithmetic::order_spec(true, args)),
        Builtin::Gt => lift(arithmetic::order_spec(false, args)),
        Builtin::Not => lift(logical::not_spec(args)),
        Builtin::And => lift(logical::connective_spec(true, args)),
        Builtin::Or => lift(logical::connective_spec(false, args)),
        Builtin::Begin => lift(list::begin_spec(args)),
        Builtin::MkList => lift(list::list_spec(args)),
        Builtin::Car => lift(list::car_spec(args)),
        Builtin::Cdr => lift(list::cdr_spec(args)),
        Builtin::Cons => lift(list::cons_spec(args)),
        Builtin::Length => lift(list::length_spec(args)),
        Builtin::Endp => lift(list::endp_spec(args)),
        Builtin::Print => io::print_spec(args),
        Builtin::ReadLine => io::read_line_spec(args),
        Builtin::ReadFile => io::read_file_spec(args),
        Builtin::ParseInt => lift(io::parse_int_spec(args)),
        Builtin::System => io::system_spec(args),
        Builtin::Split => lift(string::split_spec(args)),
        Builtin::Lines => lift(string::lines_spec(args)),
        Builtin::Concat => lift(string::concat_spec(args)),
        Builtin::Join => lift(string::join_spec(args)),
        Builtin::ToString => lift(string::to_string_spec(args)),
        Builtin::DebugPrint => misc::debug_spec(args),
        Builtin::TypeOf => lift(misc::type_of_spec(args)),
        Builtin::LocalEnv => lift(misc::dump_env_spec(true, env, args)),
        Builtin::GlobalEnv => lift(misc::dump_env_spec(false, env, args)),
    }
}

/// What invoking the binding `var` in `env` with `args` comes to. An
/// operation of the host is work for the host, whose answer is the
/// result.
pub open spec fn invoke_spec(var: VariableV, env: EnvV, args: Seq<ValueV>) -> InvokeV {
    match var {
        VariableV::Builtin(b) => builtin_spec(b, env, args),
        VariableV::Const(v) => const_spec(v, args),
        VariableV::Host(name) => InvokeV::Ask(RequestV::Call { name, args }, PendingV::Call),
    }
}

/// The message for an answer of the host that does not fit the request.
pub open spec fn msg_unexpected_reply() -> Seq<char> {
    "unexpected reply from the host"@
}

/// The message for a file that the host could not read.
pub open spec fn msg_read_failed(path: Seq<char>, why: Seq<char>) -> Seq<char> {
    "Error when reading from file "@ + path + ": "@ + why
}

/// What goes on when the host has answered `reply` to a request that was
/// made for `p`.
pub open spec fn resume_spec(p: PendingV, reply: ReplyV) -> InvokeV {
    match (p, reply) {
        (PendingV::Literal, ReplyV::Float(f)) => InvokeV::Value(ValueV::Float(f)),
        (PendingV::Fold { op, rest }, ReplyV::Float(f)) => arithmetic::fold_spec(
            op,
            ValueV::Float(f),
            rest,
        ),
        (PendingV::Print, ReplyV::Done) => InvokeV::Value(ValueV::Unit),
        (PendingV::Call, ReplyV::Value(v)) => InvokeV::Value(v),
        (PendingV::ReadLine, ReplyV::Text(t)) => InvokeV::Value(ValueV::String(without_line_end(t))),
        (PendingV::ReadLine, ReplyV::Failed(m)) => InvokeV::Fail(
            ErrorV::VarEval("error while reading from stdin: "@ + m),
        ),
        (PendingV::ReadFile { path }, ReplyV::Text(t)) => InvokeV::Value(ValueV::String(t)),
        (PendingV::ReadFile { path }, ReplyV::Failed(m)) => InvokeV::Fail(
            ErrorV::VarEval(msg_read_failed(path, m)),
        ),
        (PendingV::System { command }, ReplyV::Text(t)) => InvokeV::Value(
            ValueV::String(without_line_end(t)),
        ),
        (PendingV::System { command }, ReplyV::Failed(m)) => InvokeV::Fail(
            ErrorV::VarEval("problem executing "@ + command + ": "@ + m),
        ),
        (PendingV::Include { path, discard }, ReplyV::Text(t)) => InvokeV::Script {
            text: t,
            discard,
        },
        (PendingV::Include { path, discard }, ReplyV::Failed(m)) => InvokeV::Fail(
            ErrorV::Eval(msg_read_failed(path, m)),
        ),
        (_, ReplyV::Failed(m)) => InvokeV::Fail(ErrorV::VarEval(m)),
        _ => InvokeV::Fail(ErrorV::VarEval(msg_unexpected_reply())),
    }
}

/// The message of a read that failed.
fn read_failed(path: &String, why: &String) -> (r: String)
    ensures
        r@ == msg_read_failed(path@, why@),
{
    let mut msg = String::from_str("Error when reading from file ");
    msg.append(path.as_str());
    msg.append(": ");
    msg.append(why.as_str());
    msg
}

impl Pending {
    /// Goes on with the answer `reply` of the host.
    pub fn resume(self, reply: Reply) -> (r: Invoke)
        ensures
            r@ == resume_spec(self@, reply@),
    {
        match (self, reply) {
            (Pending::Literal, Reply::Float(f)) => Invoke::Value(Value::Float(f)),
            (Pending::Fold { op, rest }, Reply::Float(f)) => arithmetic::fold(
                op,
                Value::Float(f),
                rest,
            ),
            (Pending::Print, Reply::Done) => Invoke::Value(Value::Unit),
            (Pending::Call, Reply::Value(v)) => Invoke::Value(v),
            (Pending::ReadLine, Reply::Text(t)) => Invoke::Value(Value::String(strip_line_end(t.as_str()))),
            (Pending::ReadLine, Reply::Failed(m)) => Invoke::Fail(
                Error::VarEvalError(concat2("error while reading from stdin: ", m.as_str())),
            ),
            (Pending::ReadFile { path }, Reply::Text(t)) => Invoke::Value(Value::String(t)),
            (Pending::ReadFile { path }, Reply::Failed(m)) => Invoke::Fail(
                Error::VarEvalError(read_failed(&path, &m)),
            ),
            (Pending::System { command }, Reply::Text(t)) => Invoke::Value(
                Value::String(strip_line_end(t.as_str())),
            ),
            (Pending::System { command }, Reply::Failed(m)) => {
                let mut msg = String::from_str("problem executing ");
                msg.append(command.as_str());
                msg.append(": ");
                msg.append(m.as_str());
                Invoke::Fail(Error::VarEvalError(msg))
            },
            (Pending::Include { path, discard }, Reply::Text(t)) => Invoke::Script {
                text: t,
                discard,
            },
            (Pending::Include { path, discard }, Reply::Failed(m)) => Invoke::Fail(
                Error::EvalError(read_failed(&path, &m)),
            ),
            (_, Reply::Failed(m)) => Invoke::Fail(Error::VarEvalError(m)),
            _ => Invoke::Fail(
                Error::VarEvalError(String::from_str("unexpected reply from the host")),
            ),
        }
    }
}

/// The outcome of an operation that needs no host, as what invoking its
/// binding comes to.
fn lifted(r: Result<Value, Error>) -> (i: Invoke)
    ensures
        i@ == lift(crate::value::result_view(r)),
{
    match r {
        Ok(v) => Invoke::Value(v),
        Err(e) => Invoke::Fail(e),
    }
}

impl Lambda {
    /// Calls the lambda: checks the number of arguments and binds the
    /// parameters in a scope of their own, for the body to run in.
    pub fn eval(&self, _env: &Environment, args: Vec<Value>) -> (r: Invoke)
        ensures
            r@ == lambda_spec(names_view(self.vars@), nodes_view(self.body@), values_view(args@)),
    {
        let n = self.vars.len();
        let ghost vars = names_view(self.vars@);
        let ghost av = values_view(args@);
        proof {
            lemma_values_view(args@);
            crate::ast::lemma_nodes_view(self.body@);
        }
        if n != args.len() {
            return Invoke::Fail(wrong_count(n, args.len()));
        }
        if self.body.len() == 0 {
            return Invoke::Fail(Error::EvalError(String::from_str("no value")));
        }
        let mut rest = reversed(args);
        let mut scope: Scope = Vec::new();
        assert(scope_view(scope@) =~= Seq::empty());
        let mut k: usize = 0;
        while k < n
            invariant
                k <= n,
                n == self.vars.len(),
                n == av.len(),
                vars == names_view(self.vars@),
                rest.len() == n - k,
                forall|j: int| 0 <= j < rest.len() ==> rest[j]@ == av[n - 1 - j],
                scope_view(scope@) == bind_params(vars, av, k as nat),
            decreases n - k,
        {
            let value = rest.pop().unwrap();
            bind(&mut scope, self.vars[k].as_str(), Variable::Const(ConstVal(value)));
            k += 1;
        }
        Invoke::Enter { scope, body: clone_nodes(&self.body) }
    }
}

impl ConstVal {
    /// Invokes the binding: a lambda is called, a symbol reference hands
    /// the call on, and any other value is given back where the call has
    /// no arguments.
    pub fn eval(&self, env: &Environment, args: Vec<Value>) -> (r: Invoke)
        ensures
            r@ == const_spec(self.0@, values_view(args@)),
    {
        proof {
            lemma_values_view(args@);
        }
        match &self.0 {
            Value::Lambda(lambda) => lambda.eval(env, args),
            Value::SymbolRef(sym) => Invoke::Forward { name: sym.clone(), args },
            v => {
                if args.len() != 0 {
                    Invoke::Fail(wrong_count(0, args.len()))
                } else {
                    Invoke::Value(v.clone())
                }
            },
        }
    }

    /// The value that the binding holds.
    pub fn val(&self) -> (r: Option<Value>)
        ensures
            r is Some,
            r->0@ == self.0@,
    {
        Some(self.0.clone())
    }
}

impl Builtin {
    /// Invokes the builtin with `args` in `env`.
    pub fn eval(&self, env: &Environment, args: Vec<Value>) -> (r: Invoke)
        ensures
            r@ == builtin_spec(*self, env@, values_view(args@)),
    {
        match self {
            Builtin::Add => arithmetic::Add.eval(env, args),
            Builtin::Sub => arithmetic::Sub.eval(env, args),
            Builtin::Mul => arithmetic::Mul.eval(env, args),
            Builtin::Div => arithmetic::Div.eval(env, args),
            Builtin::Mod => arithmetic::Mod.eval(env, args),
            Builtin::Eq => lifted(arithmetic::Eq.eval(env, args)),
            Builtin::Lt => lifted(arithmetic::Lt.eval(env, args)),
            Builtin::Gt => lifted(arithmetic::Gt.eval(env, args)),
            Builtin::Not => lifted(logical::Not.eval(env, args)),
            Builtin::And => lifted(logical::And.eval(env, args)),
            Builtin::Or => lifted(logical::Or.eval(env, args)),
            Builtin::Begin => lifted(list::Begin.eval(env, args)),
            Builtin::MkList => lifted(list::MkList.eval(env, args)),
            Builtin::Car => lifted(list::Car.eval(env, args)),
            Builtin::Cdr => lifted(list::Cdr.eval(env, args)),
            Builtin::Cons => lifted(list::Cons.eval(env, args)),
            Builtin::Length => lifted(list::Length.eval(env, args)),
            Builtin::Endp => lifted(list::Endp.eval(env, args)),
            Builtin::Print => io::Print.eval(env, args),
            Builtin::ReadLine => io::ReadLine.eval(env, args),
            Builtin::ReadFile => io::ReadFile.eval(env, args),
            Builtin::ParseInt => lifted(io::ParseInt.eval(env, args)),
            Builtin::System => io::System.eval(env, args),
            Builtin::Split => lifted(string::Split.eval(env, args)),
            Builtin::Lines => lifted(string::Lines.eval(env, args)),
            Builtin::Concat => lifted(string::Concat.eval(env, args)),
            Builtin::Join => lifted(string::Join.eval(env, args)),
            Builtin::ToString => lifted(string::ToString.eval(env, args)),
            Builtin::DebugPrint => misc::DebugPrint.eval(env, args),
            Builtin::TypeOf => lifted(misc::TypeOf.eval(env, args)),
            Builtin::LocalEnv => lifted(misc::DumpEnv::<true>.eval(env, args)),
            Builtin::GlobalEnv => lifted(misc::DumpEnv::<false>.eval(env, args)),
        }
    }
}

impl Variable {
    /// Invokes the binding with `args` in `env`.
    pub fn eval(&self, env: &Environment, args: Vec<Value>) -> (r: Invoke)
        ensures
            r@ == invoke_spec(self@, env@, values_view(args@)),
    {
        match self {
            Variable::Builtin(b) => b.eval(env, args),
            Variable::Const(c) => c.eval(env, args),
            Variable::Host(name) => Invoke::Ask(
                Request::Call { name: name.clone(), args },
                Pending::Call,
            ),
        }
    }

    /// The value of the binding where it holds one; an operation holds
    /// none.
    pub fn val(&self) -> (r: Option<Value>)
        ensures
            match self@ {
                VariableV::Const(v) => r is Some && r->0@ == v,
                _ => r is None,
            },
    {
        match self {
            Variable::Const(c) => c.val(),
            _ => None,
        }
    }
}

} // verus!
