//! The values a script computes with.

use vstd::prelude::*;
use crate::ast::{
    AstNode, NodeV, clone_nodes, lambda_text, nodes_eq, nodes_equal, nodes_view, render_lambda,
};
use crate::text::{int_chars, int_text, push_chars, same_text};
use crate::{Error, ErrorV};

verus! {

/// A double-precision number as the host gave it: its IEEE 754 bit pattern,
/// and the decimal text that the host prints for it. The library compares
/// floats by their bits and never computes with them.
#[derive(Debug, PartialEq)]
pub struct Float {
    pub bits: u64,
    pub text: String,
}

/// The mathematical value of a [`Float`].
pub ghost struct FloatV {
    pub bits: u64,
    pub text: Seq<char>,
}

impl View for Float {
    type V = FloatV;

    open spec fn view(&self) -> FloatV {
        FloatV { bits: self.bits, text: self.text@ }
    }
}

impl Clone for Float {
    fn clone(&self) -> (r: Self)
        ensures
            r@ == self@,
    {
        Float { bits: self.bits, text: self.text.clone() }
    }
}

/// A function value: the names of its parameters and the forms of its body.
#[derive(Debug, PartialEq)]
pub struct Lambda {
    pub vars: Vec<String>,
    pub body: Vec<AstNode>,
}

/// Every value that a script can compute.
#[derive(Debug, PartialEq)]
pub enum Value {
    Unit,
    String(String),
    Integer(isize),
    Float(Float),
    List(Vec<Value>),
    Lambda(Lambda),
    /// A name that stands for a callable binding which is looked up when
    /// it is called.
    SymbolRef(String),
    Error(String),
}

/// The mathematical value of a [`Value`].
pub ghost enum ValueV {
    Unit,
    String(Seq<char>),
    Integer(isize),
    Float(FloatV),
    List(Seq<ValueV>),
    Lambda { vars: Seq<Seq<char>>, body: Seq<NodeV> },
    SymbolRef(Seq<char>),
    Error(Seq<char>),
}

/// The character sequences of a sequence of strings.
pub open spec fn names_view(s: Seq<String>) -> Seq<Seq<char>> {
    Seq::new(s.len(), |i: int| s[i]@)
}

/// The mathematical values of a sequence of values.
pub open spec fn values_view(s: Seq<Value>) -> Seq<ValueV>
    decreases s,
{
    Seq::new(
        s.len(),
        |i: int|
            if 0 <= i < s.len() {
                s[i].view()
            } else {
                arbitrary()
            },
    )
}

/// What `values_view` holds: the mathematical value of each item, in order.
pub broadcast proof fn lemma_values_view(s: Seq<Value>)
    ensures
        #![trigger values_view(s)]
        values_view(s).len() == s.len(),
        forall|i: int| 0 <= i < s.len() ==> #[trigger] values_view(s)[i] == s[i]@,
{
    reveal_with_fuel(values_view, 2);
}

/// The values of a sequence with one more item at its end.
pub proof fn lemma_values_view_push(s: Seq<Value>, v: Value)
    ensures
        values_view(s.push(v)) == values_view(s).push(v@),
{
    lemma_values_view(s);
    lemma_values_view(s.push(v));
    assert(values_view(s.push(v)) =~= values_view(s).push(v@));
}

impl View for Value {
    type V = ValueV;

    open spec fn view(&self) -> ValueV
        decreases self,
    {
        match self {
            Value::Unit => ValueV::Unit,
            Value::String(s) => ValueV::String(s@),
            Value::Integer(i) => ValueV::Integer(*i),
            Value::Float(f) => ValueV::Float(f@),
            Value::List(l) => ValueV::List(values_view(l@)),
            Value::Lambda(lam) => ValueV::Lambda {
                vars: names_view(lam.vars@),
                body: nodes_view(lam.body@),
            },
            Value::SymbolRef(s) => ValueV::SymbolRef(s@),
            Value::Error(s) => ValueV::Error(s@),
        }
    }
}

impl Default for Value {
    fn default() -> (r: Self)
        ensures
            r == Value::Unit,
    {
        Value::Unit
    }
}

/// A copy of a vector of strings.
pub fn clone_names(l: &Vec<String>) -> (out: Vec<String>)
    ensures
        names_view(out@) == names_view(l@),
{
    let mut out: Vec<String> = Vec::new();
    let mut i: usize = 0;
    while i < l.len()
        invariant
            i <= l.len(),
            out.len() == i,
            forall|j: int| 0 <= j < i ==> out[j]@ == l[j]@,
        decreases l.len() - i,
    {
        out.push(l[i].clone());
        i += 1;
    }
    assert(names_view(out@) =~= names_view(l@));
    out
}

/// A copy of a vector of values.
pub fn clone_values(l: &Vec<Value>) -> (out: Vec<Value>)
    ensures
        values_view(out@) == values_view(l@),
    decreases l,
{
    let mut out: Vec<Value> = Vec::new();
    let mut i: usize = 0;
    while i < l.len()
        invariant
            i <= l.len(),
            out.len() == i,
            forall|j: int| 0 <= j < i ==> out[j]@ == l[j]@,
        decreases l.len() - i,
    {
        out.push(l[i].clone());
        i += 1;
    }
    assert(values_view(out@) =~= values_view(l@));
    out
}

impl Clone for Lambda {
    fn clone(&self) -> (r: Self)
        ensures
            names_view(r.vars@) == names_view(self.vars@),
            nodes_view(r.body@) == nodes_view(self.body@),
        decreases self,
    {
        Lambda { vars: clone_names(&self.vars), body: clone_nodes(&self.body) }
    }
}

impl Clone for Value {
    fn clone(&self) -> (r: Self)
        ensures
            r@ == self@,
        decreases self,
    {
        match self {
            Value::Unit => Value::Unit,
            Value::String(s) => Value::String(s.clone()),
            Value::Integer(i) => Value::Integer(*i),
            Value::Float(f) => Value::Float(f.clone()),
            Value::List(l) => Value::List(clone_values(l)),
            Value::Lambda(lam) => Value::Lambda(lam.clone()),
            Value::SymbolRef(s) => Value::SymbolRef(s.clone()),
            Value::Error(s) => Value::Error(s.clone()),
        }
    }
}

/// Whether the bit pattern is that of a NaN.
pub open spec fn float_is_nan(bits: u64) -> bool {
    bits & 0x7ff0_0000_0000_0000 == 0x7ff0_0000_0000_0000 && bits & 0x000f_ffff_ffff_ffff != 0
}

/// Equality of two doubles by their bit patterns, as IEEE 754 has it: a NaN
/// equals nothing, the two zeros equal each other, and any other number
/// equals only itself.
pub open spec fn float_eq(a: u64, b: u64) -> bool {
    !float_is_nan(a) && !float_is_nan(b) && (a == b || (a | b) & 0x7fff_ffff_ffff_ffff == 0)
}

/// Structural equality of two values. Floats are compared as numbers.
pub open spec fn value_eq(a: ValueV, b: ValueV) -> bool
    decreases a,
{
    match (a, b) {
        (ValueV::Unit, ValueV::Unit) => true,
        (ValueV::String(x), ValueV::String(y)) => x == y,
        (ValueV::Integer(x), ValueV::Integer(y)) => x == y,
        (ValueV::Float(x), ValueV::Float(y)) => float_eq(x.bits, y.bits),
        (ValueV::List(x), ValueV::List(y)) => values_eq(x, y),
        (ValueV::Lambda { vars: v1, body: b1 }, ValueV::Lambda { vars: v2, body: b2 }) => v1 == v2
            && nodes_eq(b1, b2),
        (ValueV::SymbolRef(x), ValueV::SymbolRef(y)) => x == y,
        (ValueV::Error(x), ValueV::Error(y)) => x == y,
        _ => false,
    }
}

/// Structural equality of two sequences of values, item by item.
pub open spec fn values_eq(a: Seq<ValueV>, b: Seq<ValueV>) -> bool
    decreases a,
{
    a.len() == b.len() && forall|i: int| 0 <= i < a.len() ==> value_eq(a[i], b[i])
}

/// Tests two doubles for equality by their bit patterns.
pub fn floats_equal(a: u64, b: u64) -> (r: bool)
    ensures
        r == float_eq(a, b),
{
    let a_nan = a & 0x7ff0_0000_0000_0000 == 0x7ff0_0000_0000_0000 && a & 0x000f_ffff_ffff_ffff
        != 0;
    let b_nan = b & 0x7ff0_0000_0000_0000 == 0x7ff0_0000_0000_0000 && b & 0x000f_ffff_ffff_ffff
        != 0;
    !a_nan && !b_nan && (a == b || (a | b) & 0x7fff_ffff_ffff_ffff == 0)
}

/// Tests two vectors of strings for equality.
pub fn names_equal(a: &Vec<String>, b: &Vec<String>) -> (r: bool)
    ensures
        r == (names_view(a@) == names_view(b@)),
{
    if a.len() != b.len() {
        assert(names_view(a@).len() != names_view(b@).len());
        return false;
    }
    let mut i: usize = 0;
    while i < a.len()
        invariant
            i <= a.len(),
            a.len() == b.len(),
            forall|j: int| 0 <= j < i ==> a[j]@ == b[j]@,
        decreases a.len() - i,
    {
        if !same_text(&a[i], &b[i]) {
            assert(names_view(a@)[i as int] != names_view(b@)[i as int]);
            return false;
        }
        i += 1;
    }
    assert(names_view(a@) =~= names_view(b@));
    true
}

/// Tests two vectors of values for structural equality.
pub fn values_equal(a: &Vec<Value>, b: &Vec<Value>) -> (r: bool)
    ensures
        r == values_eq(values_view(a@), values_view(b@)),
    decreases a,
{
    if a.len() != b.len() {
        return false;
    }
    let mut i: usize = 0;
    while i < a.len()
        invariant
            i <= a.len(),
            a.len() == b.len(),
            forall|j: int| 0 <= j < i ==> value_eq(a[j]@, b[j]@),
        decreases a.len() - i,
    {
        if !a[i].equals(&b[i]) {
            assert(!value_eq(values_view(a@)[i as int], values_view(b@)[i as int]));
            return false;
        }
        i += 1;
    }
    assert forall|j: int| 0 <= j < values_view(a@).len() implies value_eq(
        values_view(a@)[j],
        values_view(b@)[j],
    ) by {}
    true
}

impl Lambda {
    /// A function value with the given parameter names and body.
    pub fn new(args: Vec<String>, body: Vec<AstNode>) -> (r: Lambda)
        ensures
            r.vars == args,
            r.body == body,
    {
        Lambda { vars: args, body }
    }
}

impl Value {
    /// Structural equality with `other`; floats are compared as numbers.
    pub fn equals(&self, other: &Value) -> (r: bool)
        ensures
            r == value_eq(self@, other@),
        decreases self,
    {
        match (self, other) {
            (Value::Unit, Value::Unit) => true,
            (Value::String(x), Value::String(y)) => same_text(x, y),
            (Value::Integer(x), Value::Integer(y)) => *x == *y,
            (Value::Float(x), Value::Float(y)) => floats_equal(x.bits, y.bits),
            (Value::List(x), Value::List(y)) => values_equal(x, y),
            (Value::Lambda(x), Value::Lambda(y)) => names_equal(&x.vars, &y.vars) && nodes_equal(
                &x.body,
                &y.body,
            ),
            (Value::SymbolRef(x), Value::SymbolRef(y)) => same_text(x, y),
            (Value::Error(x), Value::Error(y)) => same_text(x, y),
            _ => false,
        }
    }

    /// The integer that stands for a truth value: 1 for true, 0 for false.
    pub fn bool(v: bool) -> (r: Value)
        ensures
            r == Value::Integer(if v { 1isize } else { 0isize }),
    {
        if v {
            Value::Integer(1)
        } else {
            Value::Integer(0)
        }
    }

    /// The integer value `v`.
    pub fn integer(v: isize) -> (r: Value)
        ensures
            r == Value::Integer(v),
    {
        Value::Integer(v)
    }

    /// The float value `v`.
    pub fn float(v: Float) -> (r: Value)
        ensures
            r == Value::Float(v),
    {
        Value::Float(v)
    }

    /// The string value with the characters of `v`.
    pub fn string(v: &str) -> (r: Value)
        ensures
            r@ == ValueV::String(v@),
    {
        Value::String(String::from_str(v))
    }

    /// The text of a string value.
    pub fn as_str(&self) -> (r: Option<&str>)
        ensures
            match *self {
                Value::String(s) => r is Some && r->0@ == s@,
                _ => r is None,
            },
    {
        if let Value::String(s) = self {
            Some(s.as_str())
        } else {
            None
        }
    }

    /// The items of a list value.
    pub fn as_list(&self) -> (r: Option<&Vec<Value>>)
        ensures
            match *self {
                Value::List(l) => r == Some(&l),
                _ => r is None,
            },
    {
        if let Value::List(list) = self {
            Some(list)
        } else {
            None
        }
    }

    /// The items of a list value; the unit value counts as the empty list.
    pub fn to_list(self) -> (r: Option<Vec<Value>>)
        ensures
            match self {
                Value::List(l) => r == Some(l),
                Value::Unit => r is Some && r->0@ == Seq::<Value>::empty(),
                _ => r is None,
            },
    {
        match self {
            Value::List(list) => Some(list),
            Value::Unit => Some(Vec::new()),
            _ => None,
        }
    }

    /// Turns an error value into a failure, and lets every other value pass.
    pub fn unwrap_err(self) -> (r: Result<Value, Error>)
        ensures
            match self {
                Value::Error(e) => r == Err::<Value, Error>(Error::VarEvalError(e)),
                _ => r == Ok::<Value, Error>(self),
            },
    {
        match self {
            Value::Error(e) => Err(Error::VarEvalError(e)),
            o => Ok(o),
        }
    }

    /// The truth value of an integer: true for every integer but 0.
    pub fn to_bool(self) -> (r: Option<bool>)
        ensures
            match self {
                Value::Integer(i) => r == Some(i != 0),
                _ => r is None,
            },
    {
        match self {
            Value::Integer(i) => Some(i != 0),
            _ => None,
        }
    }
}

/// What stands between the items of a list in its text: a space in the
/// plain form, a comma in the displayed one.
pub open spec fn list_separator(plain: bool) -> char {
    if plain {
        ' '
    } else {
        ','
    }
}

/// The text of a value. The displayed form (`plain` false) is what
/// `print` writes: the items of a list between parentheses with commas,
/// a symbol reference behind `@`, an error value behind `Value Error: `.
/// The plain form is what `to-string` makes: spaces between the items,
/// the bare name of a symbol reference, an error value behind `Error: `.
/// Both give the unit value as nothing, a string as its characters, an
/// integer in decimal, a float as the host wrote it, and a lambda as the
/// form that makes it.
pub open spec fn value_text(v: ValueV, plain: bool) -> Seq<char>
    decreases v, 0nat,
{
    match v {
        ValueV::Unit => Seq::empty(),
        ValueV::String(s) => s,
        ValueV::Integer(i) => int_text(i as int),
        ValueV::Float(f) => f.text,
        ValueV::List(l) => seq!['('] + values_text(l, l.len(), plain) + seq![')'],
        ValueV::Lambda { vars, body } => lambda_text(vars, body),
        ValueV::SymbolRef(s) => if plain {
            s
        } else {
            seq!['@'] + s
        },
        ValueV::Error(e) => if plain {
            "Error: "@ + e
        } else {
            "Value Error: "@ + e
        },
    }
}

/// The texts of the first `k` items of `l`, with the separator between
/// them.
pub open spec fn values_text(l: Seq<ValueV>, k: nat, plain: bool) -> Seq<char>
    decreases l, k,
{
    if k == 0 || k > l.len() {
        Seq::empty()
    } else if k == 1 {
        value_text(l[0], plain)
    } else {
        values_text(l, (k - 1) as nat, plain).push(list_separator(plain)) + value_text(
            l[k - 1],
            plain,
        )
    }
}

/// Appends to `out` the texts of the items of `l`, with the separator
/// between them.
pub fn render_values(l: &Vec<Value>, plain: bool, out: &mut String)
    ensures
        final(out)@ == old(out)@ + values_text(values_view(l@), l.len() as nat, plain),
    decreases l, 0nat,
{
    let ghost lv = values_view(l@);
    proof {
        lemma_values_view(l@);
    }
    let mut i: usize = 0;
    while i < l.len()
        invariant
            i <= l.len(),
            lv == values_view(l@),
            lv.len() == l.len(),
            forall|j: int| 0 <= j < l.len() ==> lv[j] == l[j]@,
            out@ == old(out)@ + values_text(lv, i as nat, plain),
        decreases l.len() - i,
    {
        if i > 0 {
            out.push(if plain {
                ' '
            } else {
                ','
            });
        }
        l[i].render(plain, out);
        assert(out@ =~= old(out)@ + values_text(lv, (i + 1) as nat, plain));
        i += 1;
    }
}

impl Value {
    /// Appends the text of the value to `out`, in its plain or its
    /// displayed form.
    pub fn render(&self, plain: bool, out: &mut String)
        ensures
            final(out)@ == old(out)@ + value_text(self@, plain),
        decreases self, 0nat,
    {
        match self {
            Value::Unit => {
                assert(out@ =~= old(out)@ + Seq::<char>::empty());
            },
            Value::String(s) => {
                out.append(s.as_str());
            },
            Value::Integer(i) => {
                push_chars(out, &int_chars(*i));
            },
            Value::Float(f) => {
                out.append(f.text.as_str());
            },
            Value::List(l) => {
                proof {
                    lemma_values_view(l@);
                }
                out.push('(');
                render_values(l, plain, out);
                out.push(')');
                assert(out@ =~= old(out)@ + value_text(self@, plain));
            },
            Value::Lambda(lam) => {
                render_lambda(&lam.vars, &lam.body, out);
            },
            Value::SymbolRef(s) => {
                if !plain {
                    out.push('@');
                }
                out.append(s.as_str());
                assert(out@ =~= old(out)@ + value_text(self@, plain));
            },
            Value::Error(e) => {
                if plain {
                    out.append("Error: ");
                } else {
                    out.append("Value Error: ");
                }
                out.append(e.as_str());
                assert(out@ =~= old(out)@ + value_text(self@, plain));
            },
        }
    }

    /// The displayed text of the value.
    pub fn to_string(&self) -> (s: String)
        ensures
            s@ == value_text(self@, false),
    {
        let mut out = String::new();
        self.render(false, &mut out);
        assert(out@ =~= value_text(self@, false));
        out
    }
}

/// The mathematical value of the outcome of an operation.
pub open spec fn result_view(r: Result<Value, Error>) -> Result<ValueV, ErrorV> {
    match r {
        Ok(v) => Ok(v@),
        Err(e) => Err(e@),
    }
}

/// The name of the kind of a value.
pub open spec fn kind_name(v: ValueV) -> Seq<char> {
    match v {
        ValueV::Unit => "unit"@,
        ValueV::String(_) => "string"@,
        ValueV::Integer(_) => "integer"@,
        ValueV::Float(_) => "float"@,
        ValueV::List(_) => "list"@,
        ValueV::Lambda { .. } => "lambda"@,
        ValueV::SymbolRef(_) => "symbolref"@,
        ValueV::Error(_) => "error"@,
    }
}

/// How an error message names an operand: the name of its kind, a space,
/// and its displayed text.
pub open spec fn described(v: ValueV) -> Seq<char> {
    kind_name(v).push(' ') + value_text(v, false)
}

/// The message of an operation named `word` that cannot take `a`.
pub open spec fn msg_one(word: Seq<char>, a: ValueV) -> Seq<char> {
    "cannot "@ + word.push(' ') + described(a)
}

/// The message of an operation named `word` that cannot take `a` and
/// `b` together.
pub open spec fn msg_pair(word: Seq<char>, a: ValueV, b: ValueV) -> Seq<char> {
    "cannot "@ + word.push(' ') + described(a) + " and "@ + described(b)
}

/// The error of a call that was given `actual` arguments and takes
/// `expected`.
pub open spec fn arity_error(expected: nat, actual: nat) -> ErrorV {
    ErrorV::ArgNum { expected, actual }
}

impl Value {
    /// The name of the kind of the value.
    pub fn type_str(&self) -> (r: &'static str)
        ensures
            r@ == kind_name(self@),
    {
        match self {
            Value::Unit => "unit",
            Value::String(_) => "string",
            Value::Integer(_) => "integer",
            Value::Float(_) => "float",
            Value::List(_) => "list",
            Value::Lambda(_) => "lambda",
            Value::SymbolRef(_) => "symbolref",
            Value::Error(_) => "error",
        }
    }

    /// Appends to `out` the words that name the value in an error message.
    pub fn describe(&self, out: &mut String)
        ensures
            final(out)@ == old(out)@ + described(self@),
    {
        out.append(self.type_str());
        out.push(' ');
        self.render(false, out);
        assert(out@ =~= old(out)@ + described(self@));
    }

    /// The text of a string value, or the error of an operation named
    /// `word` that takes strings only.
    pub fn require_str(&self, word: &str) -> (r: Result<&str, Error>)
        ensures
            match *self {
                Value::String(s) => r is Ok && r->Ok_0@ == s@,
                _ => r is Err && r->Err_0@ == ErrorV::VarEval(msg_one(word@, self@)),
            },
    {
        match self {
            Value::String(s) => Ok(s.as_str()),
            _ => Err(one_error(word, self)),
        }
    }

    /// The items of a list value, or the error of an operation named
    /// `word` that takes lists only.
    pub fn require_list(&self, word: &str) -> (r: Result<&Vec<Value>, Error>)
        ensures
            match *self {
                Value::List(l) => r == Ok::<&Vec<Value>, Error>(&l),
                _ => r is Err && r->Err_0@ == ErrorV::VarEval(msg_one(word@, self@)),
            },
    {
        match self {
            Value::List(l) => Ok(l),
            _ => Err(one_error(word, self)),
        }
    }
}

/// The error of an operation named `word` that cannot take `a`.
pub fn one_error(word: &str, a: &Value) -> (r: Error)
    ensures
        r@ == ErrorV::VarEval(msg_one(word@, a@)),
{
    let mut msg = String::from_str("cannot ");
    msg.append(word);
    msg.push(' ');
    a.describe(&mut msg);
    assert(msg@ =~= msg_one(word@, a@));
    Error::VarEvalError(msg)
}

/// The error of an operation named `word` that cannot take `a` and `b`
/// together.
pub fn pair_error(word: &str, a: &Value, b: &Value) -> (r: Error)
    ensures
        r@ == ErrorV::VarEval(msg_pair(word@, a@, b@)),
{
    let mut msg = String::from_str("cannot ");
    msg.append(word);
    msg.push(' ');
    a.describe(&mut msg);
    msg.append(" and ");
    b.describe(&mut msg);
    assert(msg@ =~= msg_pair(word@, a@, b@));
    Error::VarEvalError(msg)
}

/// The error of a call that was given `actual` arguments and takes
/// `expected`.
pub fn wrong_count(expected: usize, actual: usize) -> (r: Error)
    ensures
        r@ == arity_error(expected as nat, actual as nat),
{
    Error::VarEvalArgNumError { expected, actual }
}

} // verus!
