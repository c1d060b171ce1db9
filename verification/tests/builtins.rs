use libfrisp::env::arithmetic::{Add, Div, Gt, Lt, Mod, Mul, Sub};
use libfrisp::env::io::{ParseInt, Print, ReadFile, ReadLine, System};
use libfrisp::env::list::{Begin, Car, Cdr, Cons, Endp, Length, MkList};
use libfrisp::env::logical::{And, Not, Or};
use libfrisp::env::misc::{DebugPrint, DumpEnv, TypeOf};
use libfrisp::env::string::{Concat, Join, Lines, Split, ToString};
use libfrisp::env::{
    ArithOp, Builtin, ConstVal, Environment, Invoke, Operand, Pending, Reply, Request, Variable,
};
use libfrisp::value::{Float, Lambda, Value};
use libfrisp::ast::AstNode;
use libfrisp::Error;

fn text(s: &str) -> Value {
    Value::String(s.to_string())
}

fn env() -> Environment {
    Environment::empty()
}

#[test]
fn arithmetic_operations_by_themselves() {
    let e = env();
    assert_eq!(Add.eval(&e, vec![Value::Integer(2), Value::Integer(3)]), Invoke::Value(Value::Integer(5)));
    assert_eq!(Sub.eval(&e, vec![Value::Integer(2), Value::Integer(3)]), Invoke::Value(Value::Integer(-1)));
    assert_eq!(Mul.eval(&e, vec![Value::Integer(2), Value::Integer(3)]), Invoke::Value(Value::Integer(6)));
    assert_eq!(Div.eval(&e, vec![Value::Integer(7), Value::Integer(2)]), Invoke::Value(Value::Integer(3)));
    assert_eq!(Mod.eval(&e, vec![Value::Integer(7), Value::Integer(2)]), Invoke::Value(Value::Integer(1)));
    assert_eq!(
        Mul.eval(&e, vec![Value::Integer(isize::MAX), Value::Integer(2)]),
        Invoke::Fail(Error::VarEvalError(format!(
            "cannot mul integer {} and integer 2",
            isize::MAX
        )))
    );
    assert_eq!(
        Div.eval(&e, vec![Value::Integer(isize::MIN), Value::Integer(-1)]),
        Invoke::Fail(Error::VarEvalError(format!(
            "cannot div integer {} and integer -1",
            isize::MIN
        )))
    );
    assert!(matches!(
        Mod.eval(&e, vec![Value::Integer(isize::MIN), Value::Integer(-1)]),
        Invoke::Fail(Error::VarEvalError(_))
    ));
}

#[test]
fn a_float_operand_is_work_for_the_host() {
    let e = env();
    let half = Float { bits: 0.5f64.to_bits(), text: "0.5".to_string() };
    let asked = Add.eval(
        &e,
        vec![Value::Integer(1), Value::Float(half), Value::Integer(4)],
    );
    assert_eq!(
        asked,
        Invoke::Ask(
            Request::FloatArith {
                op: ArithOp::Add,
                lhs: Operand::Integer(1),
                rhs: Operand::Float(0.5f64.to_bits()),
            },
            Pending::Fold { op: ArithOp::Add, rest: vec![Value::Integer(4)] },
        )
    );
    let Invoke::Ask(_, pending) = asked else { unreachable!() };
    let sum = Float { bits: 1.5f64.to_bits(), text: "1.5".to_string() };
    assert_eq!(
        pending.resume(Reply::Float(sum)),
        Invoke::Ask(
            Request::FloatArith {
                op: ArithOp::Add,
                lhs: Operand::Float(1.5f64.to_bits()),
                rhs: Operand::Integer(4),
            },
            Pending::Fold { op: ArithOp::Add, rest: vec![] },
        )
    );
    let total = Float { bits: 5.5f64.to_bits(), text: "5.5".to_string() };
    assert_eq!(
        (Pending::Fold { op: ArithOp::Add, rest: vec![] }).resume(Reply::Float(total)),
        Invoke::Value(Value::Float(Float { bits: 5.5f64.to_bits(), text: "5.5".to_string() }))
    );
}

#[test]
fn comparisons_and_connectives_by_themselves() {
    let e = env();
    assert_eq!(
        libfrisp::env::arithmetic::Eq.eval(&e, vec![text("a"), text("a")]),
        Ok(Value::Integer(1))
    );
    assert_eq!(Lt.eval(&e, vec![Value::Integer(1), Value::Integer(2)]), Ok(Value::Integer(1)));
    assert_eq!(Gt.eval(&e, vec![Value::Integer(1), Value::Integer(2)]), Ok(Value::Integer(0)));
    assert_eq!(
        Lt.eval(&e, vec![Value::Integer(1), text("a")]),
        Err(Error::VarEvalError("cannot lt integer 1 and string a".to_string()))
    );
    assert_eq!(Not.eval(&e, vec![Value::Integer(0)]), Ok(Value::Integer(1)));
    assert_eq!(And.eval(&e, vec![Value::Integer(1), Value::Integer(1)]), Ok(Value::Integer(1)));
    assert_eq!(And.eval(&e, vec![Value::Integer(2), Value::Integer(1)]), Ok(Value::Integer(0)));
    assert_eq!(Or.eval(&e, vec![Value::Integer(0), Value::Integer(1)]), Ok(Value::Integer(1)));
    assert_eq!(
        Not.eval(&e, vec![Value::Unit]),
        Err(Error::VarEvalError("cannot not unit ".to_string()))
    );
}

#[test]
fn list_operations_by_themselves() {
    let e = env();
    let list = Value::List(vec![Value::Integer(1), Value::Integer(2)]);
    assert_eq!(Begin.eval(&e, vec![Value::Integer(1), text("a")]), Ok(text("a")));
    assert_eq!(MkList.eval(&e, vec![Value::Integer(1), Value::Integer(2)]), Ok(list.clone()));
    assert_eq!(Car.eval(&e, vec![list.clone()]), Ok(Value::Integer(1)));
    assert_eq!(Cdr.eval(&e, vec![list.clone()]), Ok(Value::List(vec![Value::Integer(2)])));
    assert_eq!(
        Cons.eval(&e, vec![Value::Integer(0), list.clone()]),
        Ok(Value::List(vec![Value::Integer(0), Value::Integer(1), Value::Integer(2)]))
    );
    assert_eq!(Length.eval(&e, vec![list.clone()]), Ok(Value::Integer(2)));
    assert_eq!(Endp.eval(&e, vec![list]), Ok(Value::Integer(0)));
    assert_eq!(
        Car.eval(&e, vec![Value::List(vec![])]),
        Err(Error::VarEvalError("cannot car list ()".to_string()))
    );
}

#[test]
fn string_operations_by_themselves() {
    let e = env();
    assert_eq!(
        Split.eval(&e, vec![text("a b"), text(" ")]),
        Ok(Value::List(vec![text("a"), text("b")]))
    );
    assert_eq!(Lines.eval(&e, vec![text("a\nb")]), Ok(Value::List(vec![text("a"), text("b")])));
    assert_eq!(Concat.eval(&e, vec![text("a"), text("b")]), Ok(text("ab")));
    assert_eq!(
        Join.eval(&e, vec![text("-"), Value::List(vec![text("a"), text("b")])]),
        Ok(text("a-b"))
    );
    assert_eq!(ToString.eval(&e, vec![Value::Integer(5)]), Ok(text("5")));
    assert_eq!(ToString::value_to_string(&Value::Error("e".to_string())), Ok("Error: e".to_string()));
    assert_eq!(
        ToString::value_to_string(&Value::SymbolRef("car".to_string())),
        Ok("car".to_string())
    );
    let lambda = Value::Lambda(Lambda::new(
        vec!["x".to_string()],
        vec![AstNode::Symbol("x".to_string())],
    ));
    assert_eq!(ToString::value_to_string(&lambda), Ok("(lambda (x) x)".to_string()));
    assert_eq!(lambda.to_string(), "(lambda (x) x)");
}

#[test]
fn requests_of_the_operations_that_reach_outside() {
    let e = env();
    assert_eq!(
        Print.eval(&e, vec![text("a"), Value::Integer(1)]),
        Invoke::Ask(Request::Print("a1\n".to_string()), Pending::Print)
    );
    assert_eq!(
        DebugPrint.eval(&e, vec![text("a")]),
        Invoke::Ask(Request::Print("0: string a\n".to_string()), Pending::Print)
    );
    assert_eq!(ReadLine.eval(&e, vec![]), Invoke::Ask(Request::ReadLine, Pending::ReadLine));
    assert_eq!(
        ReadFile.eval(&e, vec![text("a.txt")]),
        Invoke::Ask(
            Request::ReadFile("a.txt".to_string()),
            Pending::ReadFile { path: "a.txt".to_string() }
        )
    );
    assert_eq!(
        System.eval(&e, vec![text("ls")]),
        Invoke::Ask(
            Request::System("ls".to_string()),
            Pending::System { command: "ls".to_string() }
        )
    );
    assert_eq!(
        (Pending::System { command: "ls".to_string() }).resume(Reply::Failed("no shell".to_string())),
        Invoke::Fail(Error::VarEvalError("problem executing ls: no shell".to_string()))
    );
    assert_eq!(Pending::Print.resume(Reply::Done), Invoke::Value(Value::Unit));
    assert_eq!(
        Pending::Print.resume(Reply::Failed("closed".to_string())),
        Invoke::Fail(Error::VarEvalError("closed".to_string()))
    );
    assert_eq!(ParseInt.eval(&e, vec![text("12")]), Ok(Value::Integer(12)));
}

#[test]
fn introspection_by_itself() {
    let mut e = env();
    e.insert_var("a", Variable::Const(ConstVal::wrap(Value::Unit)));
    let inner = e.sub_env();
    assert_eq!(TypeOf::type_str(&Value::Unit), "unit");
    assert_eq!(TypeOf::type_str(&Value::Error(String::new())), "error");
    assert_eq!(TypeOf.eval(&e, vec![Value::Integer(1)]), Ok(text("integer")));
    assert_eq!(DumpEnv::<true>.eval(&inner, vec![]), Ok(Value::List(vec![])));
    assert_eq!(DumpEnv::<false>.eval(&inner, vec![]), Ok(Value::List(vec![text("a")])));
}

#[test]
fn bindings_are_invoked_through_one_entry() {
    let e = env();
    let add = Variable::Builtin(Builtin::Add);
    assert_eq!(
        add.eval(&e, vec![Value::Integer(1), Value::Integer(2)]),
        Invoke::Value(Value::Integer(3))
    );
    assert_eq!(add.val(), None);
    let constant = Variable::Const(ConstVal::wrap(Value::Integer(7)));
    assert_eq!(constant.eval(&e, vec![]), Invoke::Value(Value::Integer(7)));
    assert_eq!(constant.val(), Some(Value::Integer(7)));
    let lambda = Lambda::new(
        vec!["x".to_string(), "x".to_string()],
        vec![AstNode::Symbol("x".to_string())],
    );
    assert_eq!(
        lambda.eval(&e, vec![Value::Integer(1), Value::Integer(2)]),
        Invoke::Enter {
            scope: vec![("x".to_string(), Variable::Const(ConstVal::wrap(Value::Integer(2))))],
            body: vec![AstNode::Symbol("x".to_string())],
        }
    );
    assert_eq!(
        lambda.eval(&e, vec![Value::Integer(1)]),
        Invoke::Fail(Error::VarEvalArgNumError { expected: 2, actual: 1 })
    );
    let reference = Variable::Const(ConstVal::wrap(Value::SymbolRef("+".to_string())));
    assert_eq!(
        reference.eval(&e, vec![Value::Integer(1)]),
        Invoke::Forward { name: "+".to_string(), args: vec![Value::Integer(1)] }
    );
    let host = Variable::Host("now".to_string());
    assert_eq!(
        host.eval(&e, vec![]),
        Invoke::Ask(Request::Call { name: "now".to_string(), args: vec![] }, Pending::Call)
    );
}
