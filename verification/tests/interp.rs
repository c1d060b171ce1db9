use libfrisp::ast::{AstNode, AstNodeStream};
use libfrisp::env::{
    ArithOp, ConstVal, Environment, Operand, Reply, Request, Variable,
};
use libfrisp::machine::{Capabilities, Machine, Status};
use libfrisp::token::TokenStream;
use libfrisp::value::{Float, Value};
use libfrisp::{Error, Outcome};

const FIB: &str = "(define fib (lambda (n) (if (< n 2) n (+ (fib (- n 1)) (fib (- n 2))))))";
const GCD: &str = "(define gcd (lambda (a b) (if (== b 0) a (gcd b (mod a b)))))";

/// What stands for the world outside the interpreter in these tests.
struct Host {
    files: Vec<(String, String)>,
    input: Vec<String>,
    output: String,
    commands: Vec<String>,
}

impl Host {
    fn new() -> Host {
        Host { files: Vec::new(), input: Vec::new(), output: String::new(), commands: Vec::new() }
    }
}

fn float(x: f64) -> Float {
    Float { bits: x.to_bits(), text: format!("{x}") }
}

fn number(o: Operand) -> f64 {
    match o {
        Operand::Integer(i) => i as f64,
        Operand::Float(bits) => f64::from_bits(bits),
    }
}

fn answer(host: &mut Host, request: Request) -> Reply {
    match request {
        Request::ParseFloat(text) => match text.parse::<f64>() {
            Ok(x) => Reply::Float(float(x)),
            Err(e) => Reply::Failed(format!("{e}")),
        },
        Request::FloatArith { op, lhs, rhs } => {
            let (a, b) = (number(lhs), number(rhs));
            Reply::Float(float(match op {
                ArithOp::Add => a + b,
                ArithOp::Sub => a - b,
                ArithOp::Mul => a * b,
                ArithOp::Div => a / b,
                ArithOp::Rem => a % b,
            }))
        }
        Request::Print(text) => {
            host.output.push_str(&text);
            Reply::Done
        }
        Request::ReadLine => {
            if host.input.is_empty() {
                Reply::Failed("end of input".to_string())
            } else {
                Reply::Text(host.input.remove(0))
            }
        }
        Request::ReadFile(path) => match host.files.iter().find(|(p, _)| *p == path) {
            Some((_, text)) => Reply::Text(text.clone()),
            None => Reply::Failed("no such file".to_string()),
        },
        Request::System(command) => {
            host.commands.push(command);
            Reply::Text("done\n".to_string())
        }
        Request::Call { name, args } => match name.as_str() {
            "assert" => assert_all(&args),
            "assert-eq" => assert_equal(&args),
            "twice" => Reply::Value(Value::List(vec![
                Value::List(args.clone()),
                Value::List(args),
            ])),
            other => Reply::Failed(format!("no operation {other}")),
        },
    }
}

fn assert_all(args: &[Value]) -> Reply {
    for arg in args {
        match arg {
            Value::Integer(1) => {}
            Value::Integer(0) => return Reply::Failed(format!("assertion failed")),
            v => return Reply::Failed(format!("assertion failed: {}", v.to_string())),
        }
    }

    Reply::Value(Value::Unit)
}

fn assert_equal(args: &[Value]) -> Reply {
    if args.len() != 2 {
        return Reply::Failed(format!("Invalid number of arguments. Expected 2 but got {}", args.len()));
    }

    if !args[0].equals(&args[1]) {
        Reply::Failed(format!("assertion failed: {:?} != {:?}", &args[0], &args[1]))
    } else {
        Reply::Value(Value::Unit)
    }
}

fn drive(machine: &mut Machine, host: &mut Host) -> Result<Value, Error> {
    loop {
        match machine.run(10_000) {
            Status::Running => {}
            Status::Waiting(request) => {
                let reply = answer(host, request);
                machine.reply(reply);
            }
            Status::Finished(result) => return result,
        }
    }
}

fn run_in(script: &str, env: &mut Environment, host: &mut Host) -> Result<Value, Error> {
    let mut machine = Machine::new(std::mem::take(env), Capabilities::all());
    machine.load(script);
    let result = drive(&mut machine, host);
    *env = machine.into_env();
    result
}

fn run_with_env(script: &str, env: &mut Environment) -> Result<Value, Error> {
    run_in(script, env, &mut Host::new())
}

fn run(script: &str) -> Result<Value, Error> {
    run_with_env(script, &mut Environment::with_default_content())
}

fn string(s: &str) -> Value {
    Value::String(s.to_string())
}

fn strings(items: &[&str]) -> Value {
    Value::List(items.iter().map(|s| string(s)).collect())
}

fn ints(items: &[isize]) -> Value {
    Value::List(items.iter().map(|i| Value::Integer(*i)).collect())
}

#[test]
fn ast_it_works() {
    let string = "(begin (define r 10) (mul 10 pi (mul r r)))";

    let tokens = TokenStream::new(string);

    let mut ast_nodes = AstNodeStream::new(tokens);

    let mut nodes = Vec::new();
    while let Some(node) = ast_nodes.next() {
        nodes.push(node.unwrap());
    }

    println!("{nodes:#?}");

    let mut env = Environment::with_default_content();

    for node in nodes {
        let res = node.eval(&mut env, 10_000);
        println!("{res:?}");
    }
}

#[test]
fn run_frisp_tests() {
    let files = [
        (
            "arithmetic-test.lisp",
            "(define test-sum (lambda () (assert-eq (+ 1 2) 3)))
             (define test-fold (lambda () (assert-eq (- 10 1 2) 7) (assert (== (* 2 3) 6))))
             (define helper (lambda (x) (* x x)))
             (define test-helper (lambda () (assert-eq (helper 4) 16)))",
        ),
        (
            "list-test.lisp",
            "(define test-car (lambda () (assert-eq (car (list 1 2)) 1)))
             (define test-cdr (lambda () (assert-eq (cdr (list 1 2)) (list 2))))
             (define test-length (lambda () (assert (== (length (list 1 2 3)) 3) (endp (list)))))",
        ),
    ];

    let mut env = Environment::with_default_content();
    env.insert_var("assert", Variable::Host("assert".to_string()));
    env.insert_var("assert-eq", Variable::Host("assert-eq".to_string()));

    for (file_name, source) in files {
        if !file_name.ends_with("test.lisp") {
            continue;
        }

        println!("test file {file_name}");

        let mut test_env = env.sub_env();

        run_with_env(source, &mut test_env).unwrap();

        let tests: Vec<_> = test_env
            .local_vars()
            .iter()
            .filter(|e| e.starts_with("test-"))
            .map(|n| n.to_string())
            .collect();
        assert!(tests.len() >= 3);

        for test in tests {
            println!("running test {test}");
            if let Err(e) = run_with_env(&format!("({test})"), &mut test_env) {
                panic!("test {file_name}/{test} failed: {}", e.to_string())
            }
        }
    }
}

#[test]
fn a_failed_assertion_of_the_host_fails_the_call() {
    let mut env = Environment::with_default_content();
    env.insert_var("assert", Variable::Host("assert".to_string()));
    env.insert_var("assert-eq", Variable::Host("assert-eq".to_string()));
    assert_eq!(run_with_env("(assert 1 1)", &mut env), Ok(Value::Unit));
    assert_eq!(
        run_with_env("(assert 1 0)", &mut env),
        Err(Error::VarEvalError("assertion failed".to_string()))
    );
    assert_eq!(
        run_with_env("(assert \"x\")", &mut env),
        Err(Error::VarEvalError("assertion failed: x".to_string()))
    );
    assert!(matches!(run_with_env("(assert-eq 1 2)", &mut env), Err(Error::VarEvalError(_))));
    assert_eq!(run_with_env("assert", &mut env), Ok(Value::SymbolRef("assert".to_string())));
}

#[test]
fn an_operation_of_the_host_gets_the_evaluated_arguments() {
    let mut env = Environment::with_default_content();
    env.insert_var("twice", Variable::Host("twice".to_string()));
    env.insert_var("lost", Variable::Host("lost".to_string()));
    assert_eq!(
        run_with_env("(twice (+ 1 2) \"a\")", &mut env),
        Ok(Value::List(vec![
            Value::List(vec![Value::Integer(3), string("a")]),
            Value::List(vec![Value::Integer(3), string("a")]),
        ]))
    );
    assert_eq!(
        run_with_env("(lost)", &mut env),
        Err(Error::VarEvalError("no operation lost".to_string()))
    );
    assert!(matches!(
        libfrisp::run_with_env("(twice 1)", &mut env, 100),
        Outcome::Waiting(Request::Call { name, args }, _)
            if name == "twice" && args == vec![Value::Integer(1)]
    ));
}

#[test]
fn test_fib() {
    let mut env = Environment::with_default_content();
    let fib_code = FIB;

    assert_eq!(Value::Unit, run_with_env(fib_code, &mut env).unwrap());
    assert_eq!(Value::integer(55isize), run_with_env(&format!("(fib 10)"), &mut env).unwrap());
}

#[test]
fn test_gcd() {
    let mut env = Environment::with_default_content();
    let gcd_code = GCD;

    assert_eq!(Value::Unit, run_with_env(gcd_code, &mut env).unwrap());
    assert_eq!(
        Value::integer(3isize),
        run_with_env(&format!("(gcd 1098 1173)"), &mut env).unwrap()
    );
}

#[test]
fn test_include() {
    let mut env = Environment::with_default_content();
    let mut host = Host::new();
    host.files.push((
        "../res/include_test.lisp".to_string(),
        "(define a 2)\n(define b 3)\n(define c (+ a b))\n".to_string(),
    ));

    assert_eq!(
        Value::Unit,
        run_in(&format!("(include \"../res/include_test.lisp\")"), &mut env, &mut host).unwrap()
    );
    assert_eq!(Value::Integer(2), run_with_env("a", &mut env).unwrap());
    assert_eq!(Value::Integer(3), run_with_env("b", &mut env).unwrap());
    assert_eq!(Value::Integer(5), run_with_env("c", &mut env).unwrap());
}

#[test]
fn end_to_end_sum() {
    assert_eq!(run("(+ 1 2)"), Ok(Value::Integer(3)));
}

#[test]
fn end_to_end_define_and_multiply() {
    assert_eq!(run("(define r 10) (* r r)"), Ok(Value::Integer(100)));
}

#[test]
fn end_to_end_if() {
    assert_eq!(run("(if (== 1 1) 7 8)"), Ok(Value::Integer(7)));
    assert_eq!(run("(if (== 1 2) 7 8)"), Ok(Value::Integer(8)));
    assert_eq!(run("(if 2 7 8)"), Ok(Value::Integer(8)));
}

#[test]
fn end_to_end_join() {
    assert_eq!(run("(str-join \",\" (list \"a\" \"b\" \"c\"))"), Ok(string("a,b,c")));
}

#[test]
fn end_to_end_fib_with_two_arguments() {
    let script = "(define fib (lambda (n acc) (if (< n 2) (+ n acc) (fib (- n 1) (fib (- n 2) acc)))))
                  (fib 10 0)";
    assert_eq!(run(script), Ok(Value::Integer(55)));
}

#[test]
fn library_run_needs_no_host_for_integers() {
    assert_eq!(libfrisp::run("(+ 1 2)", 100), Outcome::Finished(Ok(Value::Integer(3))));
    assert_eq!(libfrisp::run("", 100), Outcome::Finished(Ok(Value::Unit)));
    assert!(matches!(libfrisp::run("(+ 1 2)", 3), Outcome::Running(_)));
    assert!(matches!(
        libfrisp::run("(print 1)", 100),
        Outcome::Waiting(Request::Print(text), _) if text == "1\n"
    ));
}

#[test]
fn library_run_with_env_keeps_definitions() {
    let mut env = Environment::with_default_content();
    assert_eq!(
        libfrisp::run_with_env("(define x 41)", &mut env, 100),
        Outcome::Finished(Ok(Value::Unit))
    );
    assert_eq!(
        libfrisp::run_with_env("(+ x 1)", &mut env, 100),
        Outcome::Finished(Ok(Value::Integer(42)))
    );
}

#[test]
fn a_run_that_was_handed_back_goes_on() {
    let mut env = Environment::with_default_content();
    let mut host = Host::new();
    host.input.push("21\n".to_string());
    let script = "(define n (parse-int (read-line))) (print (* n 2.0)) (* n 2)";
    let mut outcome = libfrisp::run_with_env(script, &mut env, 5);
    let mut pauses = 0;
    let result = loop {
        outcome = match outcome {
            Outcome::Finished(result) => break result,
            Outcome::Waiting(request, machine) => {
                assert_eq!(env.depth(), 1);
                assert!(env.local_vars().is_empty());
                libfrisp::resume(machine, Some(answer(&mut host, request)), &mut env, 5)
            }
            Outcome::Running(machine) => {
                pauses += 1;
                libfrisp::resume(machine, None, &mut env, 5)
            }
        }
    };
    assert_eq!(result, Ok(Value::Integer(42)));
    assert_eq!(host.output, "42\n");
    assert!(pauses > 0);
    assert_eq!(run_with_env("n", &mut env), Ok(Value::Integer(21)));
}

#[test]
fn sum_of_integers_is_the_integer_sum() {
    for (a, b) in [(0isize, 0isize), (1, 2), (-5, 5), (isize::MAX, 0), (isize::MIN, isize::MAX)] {
        assert_eq!(run(&format!("(+ {a} {b})")), Ok(Value::Integer(a + b)));
    }
}

#[test]
fn sum_beyond_the_machine_word_fails() {
    let r = run(&format!("(+ {} 1)", isize::MAX));
    assert!(matches!(r, Err(Error::VarEvalError(_))));
}

#[test]
fn mixing_float_and_integer_gives_a_float() {
    assert_eq!(run("(+ 1 2.5)"), Ok(Value::Float(float(3.5))));
    assert_eq!(run("(+ 2.5 1)"), Ok(Value::Float(float(3.5))));
    assert_eq!(run("(* 2 0.5)"), Ok(Value::Float(float(1.0))));
    assert_eq!(run("(- 1.5 1)"), Ok(Value::Float(float(0.5))));
    assert_eq!(run("(/ 1 4.0)"), Ok(Value::Float(float(0.25))));
    assert_eq!(run("(mod 7.5 2)"), Ok(Value::Float(float(1.5))));
    assert_eq!(run("(+ 1 2.5 3)"), Ok(Value::Float(float(6.5))));
    assert_eq!(run("(+ 1.5 2.5)"), Ok(Value::Float(float(4.0))));
}

#[test]
fn arithmetic_folds_from_the_left() {
    assert_eq!(run("(- 10 1 2 3)"), Ok(Value::Integer(4)));
    assert_eq!(run("(/ 100 5 2)"), Ok(Value::Integer(10)));
    assert_eq!(run("(* 2 3 4)"), Ok(Value::Integer(24)));
    assert_eq!(run("(+ 5)"), Ok(Value::Integer(5)));
    assert_eq!(run("(+)"), Ok(Value::Unit));
    assert_eq!(run("(+ \"a\")"), Ok(string("a")));
}

#[test]
fn integer_division_rounds_toward_zero() {
    assert_eq!(run("(/ -7 2)"), Ok(Value::Integer(-3)));
    assert_eq!(run("(/ 7 -2)"), Ok(Value::Integer(-3)));
    assert_eq!(run("(mod -7 2)"), Ok(Value::Integer(-1)));
    assert_eq!(run("(mod 7 -2)"), Ok(Value::Integer(1)));
    assert_eq!(run("(mod 7 2)"), Ok(Value::Integer(1)));
}

#[test]
fn division_by_zero_fails() {
    assert!(matches!(run("(/ 1 0)"), Err(Error::VarEvalError(_))));
    assert!(matches!(run("(mod 1 0)"), Err(Error::VarEvalError(_))));
}

#[test]
fn arithmetic_on_other_values_fails_and_names_them() {
    assert_eq!(
        run("(+ 1 \"x\")"),
        Err(Error::VarEvalError("cannot add integer 1 and string x".to_string()))
    );
    assert_eq!(
        run("(mod (list) 2)"),
        Err(Error::VarEvalError("cannot mod list () and integer 2".to_string()))
    );
}

#[test]
fn mod_takes_two_operands() {
    assert_eq!(run("(mod 1)"), Err(Error::VarEvalArgNumError { expected: 2, actual: 1 }));
    assert_eq!(run("(mod 1 2 3)"), Err(Error::VarEvalArgNumError { expected: 2, actual: 3 }));
}

#[test]
fn shadowing_resolves_at_the_call() {
    // A lambda looks its free names up in the environment that is active
    // when it is called: the second definition of x is the one in force.
    let script = "(begin (define x 1) (define f (lambda () x)) (define x 2) (f))";
    assert_eq!(run(script), Ok(Value::Integer(2)));
}

#[test]
fn a_call_sees_the_scope_of_its_caller() {
    let script = "(define x 1)
                  (define f (lambda () x))
                  (define g (lambda (x) (f)))
                  (g 5)";
    assert_eq!(run(script), Ok(Value::Integer(5)));
}

#[test]
fn parameters_do_not_outlive_the_call() {
    let mut env = Environment::with_default_content();
    assert_eq!(run_with_env("(define f (lambda (y) (+ y 1))) (f 1)", &mut env), Ok(Value::Integer(2)));
    assert!(matches!(run_with_env("y", &mut env), Err(Error::EvalError(_))));
    assert_eq!(env.depth(), 1);
}

#[test]
fn define_inside_a_call_stays_inside() {
    let mut env = Environment::with_default_content();
    let script = "(define x 1) (define f (lambda () (define x 2) x)) (f)";
    assert_eq!(run_with_env(script, &mut env), Ok(Value::Integer(2)));
    assert_eq!(run_with_env("x", &mut env), Ok(Value::Integer(1)));
}

#[test]
fn arity_mismatch_of_a_lambda() {
    let mut env = Environment::with_default_content();
    run_with_env("(define f (lambda (a b) (+ a b)))", &mut env).unwrap();
    assert_eq!(
        run_with_env("(f 1)", &mut env),
        Err(Error::VarEvalArgNumError { expected: 2, actual: 1 })
    );
    assert_eq!(
        run_with_env("(f 1 2 3)", &mut env),
        Err(Error::VarEvalArgNumError { expected: 2, actual: 3 })
    );
    assert_eq!(run_with_env("(f 1 2)", &mut env), Ok(Value::Integer(3)));
    assert_eq!(env.depth(), 1);
}

#[test]
fn an_error_in_a_body_comes_out_as_it_is() {
    let mut env = Environment::with_default_content();
    run_with_env("(define f (lambda () (nope)))", &mut env).unwrap();
    assert_eq!(
        run_with_env("(f)", &mut env),
        Err(Error::EvalError("proc not found: nope".to_string()))
    );
    assert_eq!(env.depth(), 1);
}

#[test]
fn arity_mismatch_inside_another_lambda_stays_structured() {
    let script = "(define f (lambda (a b) a)) (define g (lambda () (f 1))) (g)";
    assert_eq!(run(script), Err(Error::VarEvalArgNumError { expected: 2, actual: 1 }));
    assert_eq!(
        libfrisp::run(script, 1_000),
        Outcome::Finished(Err(Error::VarEvalArgNumError { expected: 2, actual: 1 }))
    );
    let mut env = Environment::with_default_content();
    let deep = "(define f (lambda (a b) a))
                (define g (lambda (x) (+ x (f 1 2 3))))
                (define h (lambda () (progn (g 1))))
                (h)";
    assert_eq!(
        run_with_env(deep, &mut env),
        Err(Error::VarEvalArgNumError { expected: 2, actual: 3 })
    );
    assert_eq!(env.depth(), 1);
}

#[test]
fn a_lambda_without_body_has_no_value() {
    assert_eq!(run("(define f (lambda ())) (f)"), Err(Error::EvalError("no value".to_string())));
}

#[test]
fn car_and_cdr() {
    assert!(matches!(run("(car (list))"), Err(Error::VarEvalError(_))));
    assert_eq!(run("(cdr (list 1))"), Ok(Value::List(vec![])));
    assert_eq!(run("(car (list 1 2 3))"), Ok(Value::Integer(1)));
    assert_eq!(run("(cdr (list 1 2 3))"), Ok(ints(&[2, 3])));
    assert_eq!(run("(cdr (list))"), Ok(Value::List(vec![])));
    assert!(matches!(run("(car 1)"), Err(Error::VarEvalError(_))));
    assert!(matches!(run("(cdr 1)"), Err(Error::VarEvalError(_))));
    assert_eq!(run("(car)"), Err(Error::VarEvalArgNumError { expected: 1, actual: 0 }));
    assert_eq!(run("(cdr 1 2)"), Err(Error::VarEvalArgNumError { expected: 1, actual: 2 }));
}

#[test]
fn list_builtins() {
    assert_eq!(run("(list 1 2 3)"), Ok(ints(&[1, 2, 3])));
    assert_eq!(run("(list)"), Ok(Value::List(vec![])));
    assert_eq!(run("(cons 1 (list 2 3))"), Ok(ints(&[1, 2, 3])));
    assert_eq!(run("(cons 1 ())"), Ok(ints(&[1])));
    assert!(matches!(run("(cons 1 2)"), Err(Error::VarEvalError(_))));
    assert_eq!(run("(length (list 1 2 3))"), Ok(Value::Integer(3)));
    assert_eq!(run("(length ())"), Ok(Value::Integer(0)));
    assert_eq!(run("(length \"héllo\")"), Ok(Value::Integer(6)));
    assert!(matches!(run("(length 5)"), Err(Error::VarEvalError(_))));
    assert_eq!(run("(endp (list))"), Ok(Value::Integer(1)));
    assert_eq!(run("(endp (list 1))"), Ok(Value::Integer(0)));
    assert!(matches!(run("(endp 1)"), Err(Error::VarEvalError(_))));
    assert_eq!(run("(begin 1 2 3)"), Ok(Value::Integer(3)));
    assert_eq!(run("(begin)"), Ok(Value::Unit));
}

#[test]
fn comparison_builtins() {
    assert_eq!(run("(== 1 1)"), Ok(Value::Integer(1)));
    assert_eq!(run("(== 1 2)"), Ok(Value::Integer(0)));
    assert_eq!(run("(== \"a\" \"a\")"), Ok(Value::Integer(1)));
    assert_eq!(run("(== (list 1 (list 2)) (list 1 (list 2)))"), Ok(Value::Integer(1)));
    assert_eq!(run("(== (list 1 2) (list 1 3))"), Ok(Value::Integer(0)));
    assert_eq!(run("(== 1 \"1\")"), Ok(Value::Integer(0)));
    assert_eq!(run("(== 1 1.0)"), Ok(Value::Integer(0)));
    assert_eq!(run("(== 1.5 1.50)"), Ok(Value::Integer(1)));
    assert_eq!(run("(== 0.0 -0.0)"), Ok(Value::Integer(1)));
    assert_eq!(run("(== (/ 0.0 0) (/ 0.0 0))"), Ok(Value::Integer(0)));
    assert_eq!(run("(== (lambda (x) x) (lambda (x) x))"), Ok(Value::Integer(1)));
    assert_eq!(run("(== (lambda (x) x) (lambda (y) y))"), Ok(Value::Integer(0)));
    assert_eq!(run("(== 1)"), Err(Error::VarEvalArgNumError { expected: 2, actual: 1 }));
    assert_eq!(run("(< 1 2)"), Ok(Value::Integer(1)));
    assert_eq!(run("(< 2 1)"), Ok(Value::Integer(0)));
    assert_eq!(run("(> 2 1)"), Ok(Value::Integer(1)));
    assert_eq!(run("(> 1 1)"), Ok(Value::Integer(0)));
    assert!(matches!(run("(< 1 2.0)"), Err(Error::VarEvalError(_))));
    assert!(matches!(run("(> \"a\" 1)"), Err(Error::VarEvalError(_))));
    assert_eq!(run("(< 1)"), Err(Error::VarEvalArgNumError { expected: 2, actual: 1 }));
}

#[test]
fn logical_builtins() {
    assert_eq!(run("(not 0)"), Ok(Value::Integer(1)));
    assert_eq!(run("(not 1)"), Ok(Value::Integer(0)));
    assert_eq!(run("(not 7)"), Ok(Value::Integer(0)));
    assert!(matches!(run("(not \"a\")"), Err(Error::VarEvalError(_))));
    assert_eq!(run("(not)"), Err(Error::VarEvalArgNumError { expected: 1, actual: 0 }));
    assert_eq!(run("(and 1 1)"), Ok(Value::Integer(1)));
    assert_eq!(run("(and 1 0)"), Ok(Value::Integer(0)));
    assert_eq!(run("(or 0 1)"), Ok(Value::Integer(1)));
    assert_eq!(run("(or 0 0)"), Ok(Value::Integer(0)));
    assert!(matches!(run("(and 1 \"a\")"), Err(Error::VarEvalError(_))));
    assert_eq!(run("(or 1)"), Err(Error::VarEvalArgNumError { expected: 2, actual: 1 }));
}

#[test]
fn string_builtins() {
    assert_eq!(run("(str-split \"a,b,,c\" \",\")"), Ok(strings(&["a", "b", "", "c"])));
    assert_eq!(run("(str-split \"abc\" \"x\")"), Ok(strings(&["abc"])));
    assert_eq!(run("(str-split \"\" \"x\")"), Ok(strings(&[""])));
    assert_eq!(run("(str-split \"aaa\" \"aa\")"), Ok(strings(&["", "a"])));
    assert_eq!(run("(str-split \"ab\" \"\")"), Ok(strings(&["", "a", "b", ""])));
    assert_eq!(run("(str-split \"a--b--\" \"--\")"), Ok(strings(&["a", "b", ""])));
    assert!(matches!(run("(str-split 1 \",\")"), Err(Error::VarEvalError(_))));
    assert!(matches!(run("(str-split \"a\" 1)"), Err(Error::VarEvalError(_))));
    assert_eq!(run("(str-split \"a\")"), Err(Error::VarEvalArgNumError { expected: 2, actual: 1 }));
    assert_eq!(run("(str-concat \"a\" \"b\" \"c\")"), Ok(string("abc")));
    assert_eq!(run("(str-concat)"), Ok(string("")));
    assert!(matches!(run("(str-concat \"a\" 1)"), Err(Error::VarEvalError(_))));
    assert_eq!(run("(str-join \", \" (list))"), Ok(string("")));
    assert_eq!(run("(str-join \", \" (list \"a\"))"), Ok(string("a")));
    assert!(matches!(run("(str-join \",\" (list \"a\" 1))"), Err(Error::VarEvalError(_))));
    assert!(matches!(run("(str-join \",\" \"a\")"), Err(Error::VarEvalError(_))));
    assert!(matches!(run("(str-join 1 (list))"), Err(Error::VarEvalError(_))));
}

#[test]
fn lines_of_a_string() {
    let mut env = Environment::with_default_content();
    env.insert_var("text", Variable::Const(ConstVal::wrap(string("a\nb\r\n\nc"))));
    assert_eq!(run_with_env("(str-lines text)", &mut env), Ok(strings(&["a", "b", "", "c"])));
    env.insert_var("text", Variable::Const(ConstVal::wrap(string("a\n"))));
    assert_eq!(run_with_env("(str-lines text)", &mut env), Ok(strings(&["a"])));
    env.insert_var("text", Variable::Const(ConstVal::wrap(string("a\r"))));
    assert_eq!(run_with_env("(str-lines text)", &mut env), Ok(strings(&["a\r"])));
    assert_eq!(run("(str-lines \"\")"), Ok(Value::List(vec![])));
    assert!(matches!(run("(str-lines 1)"), Err(Error::VarEvalError(_))));
}

#[test]
fn to_string_of_every_kind() {
    assert_eq!(run("(to-string 12)"), Ok(string("12")));
    assert_eq!(run("(to-string -12)"), Ok(string("-12")));
    assert_eq!(run("(to-string \"a\")"), Ok(string("a")));
    assert_eq!(run("(to-string ())"), Ok(string("")));
    assert_eq!(run("(to-string 1.5)"), Ok(string("1.5")));
    assert_eq!(run("(to-string (list 1 \"a\" (list 2 3)))"), Ok(string("(1 a (2 3))")));
    assert_eq!(run("(to-string car)"), Ok(string("car")));
    assert_eq!(
        run("(to-string (lambda (x y) (+ x \"a\\\"b\") 1.5))"),
        Ok(string("(lambda (x y) (+ x \"a\\\"b\") 1.5)"))
    );
    assert_eq!(run("(to-string 1 2)"), Ok(strings(&["1", "2"])));
    assert_eq!(run("(to-string)"), Ok(Value::List(vec![])));
}

#[test]
fn type_of_every_kind() {
    assert_eq!(run("(type-of 1)"), Ok(string("integer")));
    assert_eq!(run("(type-of 1.0)"), Ok(string("float")));
    assert_eq!(run("(type-of \"a\")"), Ok(string("string")));
    assert_eq!(run("(type-of ())"), Ok(string("unit")));
    assert_eq!(run("(type-of (list))"), Ok(string("list")));
    assert_eq!(run("(type-of (lambda () 1))"), Ok(string("lambda")));
    assert_eq!(run("(type-of car)"), Ok(string("symbolref")));
    assert_eq!(run("(type-of 1 \"a\")"), Ok(strings(&["integer", "string"])));
}

#[test]
fn parse_int_builtin() {
    assert_eq!(run("(parse-int \"42\")"), Ok(Value::Integer(42)));
    assert_eq!(run("(parse-int \"-42\")"), Ok(Value::Integer(-42)));
    assert_eq!(run("(parse-int \"+42\")"), Ok(Value::Integer(42)));
    assert_eq!(run("(parse-int 42)"), Ok(Value::Integer(42)));
    assert!(matches!(run("(parse-int \"4x\")"), Err(Error::VarEvalError(_))));
    assert!(matches!(run("(parse-int \"\")"), Err(Error::VarEvalError(_))));
    assert!(matches!(run("(parse-int \" 4\")"), Err(Error::VarEvalError(_))));
    assert!(matches!(run("(parse-int 4.0)"), Err(Error::VarEvalError(_))));
    assert_eq!(run("(parse-int)"), Err(Error::VarEvalArgNumError { expected: 1, actual: 0 }));
}

#[test]
fn print_writes_the_displayed_text_and_a_line_feed() {
    let mut env = Environment::with_default_content();
    let mut host = Host::new();
    let script = "(print 1 \"a\" (list 1 (list 2 \"b\")) 1.5 car) (print)";
    assert_eq!(run_in(script, &mut env, &mut host), Ok(Value::Unit));
    assert_eq!(host.output, "1a(1,(2,b))1.5@car\n\n");
}

#[test]
fn debug_writes_each_operand_with_its_place() {
    let mut env = Environment::with_default_content();
    let mut host = Host::new();
    assert_eq!(run_in("(debug 7 \"a\")", &mut env, &mut host), Ok(Value::Unit));
    assert_eq!(host.output, "0: integer 7\n1: string a\n");
}

#[test]
fn read_line_strips_the_end_of_the_line() {
    let mut env = Environment::with_default_content();
    let mut host = Host::new();
    host.input.push("hello world \r\n".to_string());
    host.input.push("no line end".to_string());
    assert_eq!(run_in("(read-line)", &mut env, &mut host), Ok(string("hello world ")));
    assert_eq!(run_in("(read-line)", &mut env, &mut host), Ok(string("no line end")));
    assert_eq!(
        run_in("(read-line)", &mut env, &mut host),
        Err(Error::VarEvalError("error while reading from stdin: end of input".to_string()))
    );
    assert_eq!(
        run_in("(read-line 1)", &mut env, &mut host),
        Err(Error::VarEvalArgNumError { expected: 0, actual: 1 })
    );
}

#[test]
fn read_file_gives_the_contents() {
    let mut env = Environment::with_default_content();
    let mut host = Host::new();
    host.files.push(("notes.txt".to_string(), "one\ntwo\n".to_string()));
    assert_eq!(run_in("(read-file \"notes.txt\")", &mut env, &mut host), Ok(string("one\ntwo\n")));
    assert_eq!(
        run_in("(read-file \"none.txt\")", &mut env, &mut host),
        Err(Error::VarEvalError("Error when reading from file none.txt: no such file".to_string()))
    );
    assert!(matches!(run_in("(read-file 1)", &mut env, &mut host), Err(Error::VarEvalError(_))));
}

#[test]
fn system_hands_the_command_to_the_host() {
    let mut env = Environment::with_default_content();
    let mut host = Host::new();
    assert_eq!(run_in("(system \"echo done\")", &mut env, &mut host), Ok(string("done")));
    assert_eq!(
        run_in("(system)", &mut env, &mut host),
        Err(Error::VarEvalArgNumError { expected: 1, actual: 0 })
    );
    assert_eq!(host.commands, vec!["echo done".to_string()]);
    assert!(matches!(run_in("(system 1)", &mut env, &mut host), Err(Error::VarEvalError(_))));
}

#[test]
fn include_of_a_missing_file_is_an_evaluation_error() {
    let mut env = Environment::with_default_content();
    let mut host = Host::new();
    assert_eq!(
        run_in("(include \"none.lisp\")", &mut env, &mut host),
        Err(Error::EvalError("Error when reading from file none.lisp: no such file".to_string()))
    );
}

#[test]
fn load_file_gives_the_value_of_the_last_form() {
    let mut host = Host::new();
    host.files.push(("main.lisp".to_string(), "(define a 2) (* a 21)".to_string()));
    let mut machine = Machine::new(Environment::with_default_content(), Capabilities::all());
    machine.load_file("main.lisp");
    assert_eq!(drive(&mut machine, &mut host), Ok(Value::Integer(42)));
}

#[test]
fn eval_runs_a_string_in_the_current_environment() {
    assert_eq!(run("(define x 4) (eval \"(define y 5) (+ x y)\")"), Ok(Value::Integer(9)));
    assert_eq!(run("(eval \"\")"), Ok(Value::Unit));
    assert!(matches!(run("(eval)"), Err(Error::EvalError(_))));
    assert!(matches!(run("(eval 1)"), Err(Error::EvalError(_))));
    assert!(matches!(run("(eval x)"), Err(Error::EvalError(_))));
    assert!(matches!(run("(eval \"(\")"), Err(Error::ParserError(_))));
}

#[test]
fn optional_forms_can_be_switched_off() {
    let mut machine = Machine::new(Environment::with_default_content(), Capabilities::none());
    machine.load("(eval \"1\")");
    assert_eq!(
        drive(&mut machine, &mut Host::new()),
        Err(Error::EvalError("proc not found: eval".to_string()))
    );
    let mut machine = Machine::new(Environment::with_default_content(), Capabilities::none());
    machine.load("(include \"a\")");
    assert_eq!(
        drive(&mut machine, &mut Host::new()),
        Err(Error::EvalError("proc not found: include".to_string()))
    );
}

#[test]
fn special_forms_report_missing_operands() {
    assert_eq!(run("(if)"), Err(Error::EvalError("missing test".to_string())));
    assert_eq!(run("(if 1)"), Err(Error::EvalError("missing conseq".to_string())));
    assert_eq!(run("(if 1 2)"), Err(Error::EvalError("missing alt".to_string())));
    assert_eq!(run("(define)"), Err(Error::EvalError("no symbol for define".to_string())));
    assert_eq!(run("(define x)"), Err(Error::EvalError("no value for define".to_string())));
    assert_eq!(run("(lambda)"), Err(Error::EvalError("no args for lambda".to_string())));
    assert_eq!(run("(lambda x)"), Err(Error::EvalError("not a list: x".to_string())));
    assert_eq!(run("(lambda (x 1))"), Err(Error::EvalError("not a symbol: 1".to_string())));
    assert_eq!(run("(progn)"), Err(Error::EvalError("no value".to_string())));
}

#[test]
fn define_gives_unit_and_ignores_other_targets() {
    let mut env = Environment::with_default_content();
    assert_eq!(run_with_env("(define x 1)", &mut env), Ok(Value::Unit));
    assert_eq!(run_with_env("(define 5 (nope))", &mut env), Ok(Value::Unit));
    assert_eq!(run_with_env("x", &mut env), Ok(Value::Integer(1)));
}

#[test]
fn progn_gives_the_last_value() {
    assert_eq!(run("(progn 1 2 3)"), Ok(Value::Integer(3)));
    assert_eq!(run("(progn (define x 1) (+ x 1))"), Ok(Value::Integer(2)));
}

#[test]
fn evaluation_of_symbols_and_lists() {
    assert_eq!(run("()"), Ok(Value::Unit));
    assert_eq!(run(""), Ok(Value::Unit));
    assert_eq!(run("\"a\""), Ok(string("a")));
    assert_eq!(run("car"), Ok(Value::SymbolRef("car".to_string())));
    assert_eq!(run("pi"), Ok(Value::Float(float(std::f64::consts::PI))));
    assert_eq!(run("nope"), Err(Error::EvalError("symbol not found: nope".to_string())));
    assert_eq!(run("(nope 1)"), Err(Error::EvalError("proc not found: nope".to_string())));
    assert_eq!(
        run("((car) 1)"),
        Err(Error::EvalError("invalid at this point in time: ((car) 1)".to_string()))
    );
    assert_eq!(run("(1 2)"), Err(Error::EvalError("invalid at this point in time: (1 2)".to_string())));
}

#[test]
fn a_symbol_reference_is_resolved_when_it_is_called() {
    assert_eq!(run("(define plus +) (plus 1 2)"), Ok(Value::Integer(3)));
    let mut env = Environment::with_default_content();
    env.insert_var("ghost", Variable::Const(ConstVal::wrap(Value::SymbolRef("gone".to_string()))));
    assert_eq!(
        run_with_env("(ghost 1)", &mut env),
        Err(Error::EvalError("unknown symbol: gone".to_string()))
    );
}

#[test]
fn a_constant_takes_no_arguments() {
    assert_eq!(run("(define x 1) (x)"), Ok(Value::Integer(1)));
    assert_eq!(
        run("(define x 1) (x 2)"),
        Err(Error::VarEvalArgNumError { expected: 0, actual: 1 })
    );
}

#[test]
fn an_error_value_becomes_a_failure_of_a_fold() {
    let mut env = Environment::with_default_content();
    env.insert_var("bad", Variable::Const(ConstVal::wrap(Value::Error("broken".to_string()))));
    assert_eq!(run_with_env("(+ bad)", &mut env), Err(Error::VarEvalError("broken".to_string())));
}

#[test]
fn unbalanced_scripts_fail_to_parse_and_run_nothing() {
    let mut env = Environment::with_default_content();
    assert_eq!(
        run_with_env("(define x 1", &mut env),
        Err(Error::ParserError("reached end of stream without end of list".to_string()))
    );
    assert!(matches!(run_with_env("x", &mut env), Err(Error::EvalError(_))));
    assert_eq!(
        run_with_env(")(define x 1)", &mut env),
        Err(Error::ParserError("list end without current list".to_string()))
    );
    assert!(matches!(run_with_env("x", &mut env), Err(Error::EvalError(_))));
    assert!(matches!(run_with_env("(print (+ 1 2)", &mut env), Err(Error::ParserError(_))));
    assert!(matches!(run_with_env("((()", &mut env), Err(Error::ParserError(_))));
}

#[test]
fn an_unbalanced_script_runs_no_form_at_all() {
    let mut env = Environment::with_default_content();
    let mut host = Host::new();
    assert_eq!(
        run_in("(define x 1) (print x) (+ 1", &mut env, &mut host),
        Err(Error::ParserError("reached end of stream without end of list".to_string()))
    );
    assert!(env.get_var("x").is_none());
    assert_eq!(host.output, "");
    assert_eq!(
        run_in("(define x 1) (print x) ) (define y 2)", &mut env, &mut host),
        Err(Error::ParserError("list end without current list".to_string()))
    );
    assert!(env.get_var("x").is_none());
    assert!(env.get_var("y").is_none());
    assert_eq!(host.output, "");
    assert_eq!(
        libfrisp::run_with_env("(define x 1) (+ 1", &mut env, 1_000),
        Outcome::Finished(Err(Error::ParserError(
            "reached end of stream without end of list".to_string()
        )))
    );
    assert!(env.get_var("x").is_none());
    assert!(env.get_var("+").is_some());
    assert_eq!(
        libfrisp::run_with_env("(define x 1) )", &mut env, 0),
        Outcome::Finished(Err(Error::ParserError("list end without current list".to_string())))
    );
    assert!(env.get_var("+").is_some());
    let mut other = Environment::with_default_content();
    assert!(matches!(libfrisp::run_with_env("(define x 1)", &mut other, 0), Outcome::Running(_)));
    assert!(other.local_vars().is_empty());
    assert_eq!(run_in("(define x 1) (print x)", &mut env, &mut host), Ok(Value::Unit));
    assert_eq!(host.output, "1\n");
}

#[test]
fn an_unbalanced_script_in_eval_or_in_a_file_runs_no_form() {
    let mut env = Environment::with_default_content();
    let mut host = Host::new();
    host.files.push(("bad.lisp".to_string(), "(define a 2) (define b".to_string()));
    assert!(matches!(
        run_in("(include \"bad.lisp\")", &mut env, &mut host),
        Err(Error::ParserError(_))
    ));
    assert!(env.get_var("a").is_none());
    assert!(matches!(
        run_in("(eval \"(define c 3) )\")", &mut env, &mut host),
        Err(Error::ParserError(_))
    ));
    assert!(env.get_var("c").is_none());
}

#[test]
fn a_lexical_error_anywhere_runs_no_form() {
    let mut env = Environment::with_default_content();
    assert_eq!(
        run_with_env("(define x 1) (print \"abc", &mut env),
        Err(Error::TokenizerError("EOF while reading string".to_string()))
    );
    assert!(env.get_var("x").is_none());
}

#[test]
fn a_lexical_error_ends_the_run() {
    assert_eq!(
        run("(print \"abc"),
        Err(Error::TokenizerError("EOF while reading string".to_string()))
    );
    assert!(matches!(run("(+ 1 \u{e9})"), Err(Error::TokenizerError(_))));
}

#[test]
fn environment_lookup_and_shadowing() {
    let mut outer = Environment::empty();
    outer.insert_var("a", Variable::Const(ConstVal::wrap(Value::Integer(1))));
    outer.insert_var("b", Variable::Const(ConstVal::wrap(Value::Integer(2))));
    let mut inner = outer.sub_env();
    inner.insert_var("a", Variable::Const(ConstVal::wrap(Value::Integer(10))));
    assert_eq!(inner.get_var("a").unwrap().val(), Some(Value::Integer(10)));
    assert_eq!(inner.get_var("b").unwrap().val(), Some(Value::Integer(2)));
    assert_eq!(outer.get_var("a").unwrap().val(), Some(Value::Integer(1)));
    assert!(inner.get_var("c").is_none());
    assert_eq!(inner.local_vars(), vec!["a".to_string()]);
    assert_eq!(inner.all_vars(), vec!["a".to_string(), "a".to_string(), "b".to_string()]);
    inner.insert_var("a", Variable::Const(ConstVal::wrap(Value::Integer(11))));
    assert_eq!(inner.local_vars(), vec!["a".to_string()]);
    assert_eq!(inner.get_var("a").unwrap().val(), Some(Value::Integer(11)));
    assert_eq!(outer.local_env().depth(), 2);
}

#[test]
fn the_default_environment_binds_every_builtin() {
    let env = Environment::with_default_content();
    let names = env.local_vars();
    assert_eq!(names.len(), 33);
    for name in [
        "+", "-", "*", "/", "mod", "==", "<", ">", "not", "or", "and", "pi", "begin", "list",
        "car", "cdr", "cons", "length", "endp", "read-line", "read-file", "print", "parse-int",
        "system", "str-split", "str-lines", "str-concat", "str-join", "to-string", "debug",
        "type-of", "local-env", "global-env",
    ] {
        assert!(env.get_var(name).is_some());
        assert!(names.contains(&name.to_string()));
    }
}

#[test]
fn the_default_environment_is_one_scope() {
    let env = libfrisp::default_environment();
    assert_eq!(env.depth(), 1);
    assert_eq!(env.local_vars(), Environment::with_default_content().local_vars());
    assert_eq!(env.all_vars(), env.local_vars());
    assert_eq!(Environment::default().local_vars(), Vec::<String>::new());
}

#[test]
fn a_binding_can_be_made_from_a_value() {
    let binding = ConstVal::from(Value::Integer(3));
    assert_eq!(binding, ConstVal::wrap(Value::Integer(3)));
    assert_eq!(binding.val(), Some(Value::Integer(3)));
}

#[test]
fn env_builtins_list_the_names() {
    let mut env = Environment::empty();
    env.insert_var("local-env", Environment::with_default_content().get_var("local-env").unwrap().clone());
    env.insert_var("global-env", Environment::with_default_content().get_var("global-env").unwrap().clone());
    let script = "(define f (lambda (x) (local-env))) (f 1)";
    assert_eq!(run_with_env(script, &mut env), Ok(strings(&["x"])));
    assert_eq!(
        run_with_env("(define g (lambda (x) (global-env))) (g 1)", &mut env),
        Ok(strings(&["x", "local-env", "global-env", "f", "g"]))
    );
    assert_eq!(
        run_with_env("(local-env 1)", &mut env),
        Err(Error::VarEvalArgNumError { expected: 0, actual: 1 })
    );
    assert_eq!(
        run_with_env("(global-env 1 2)", &mut env),
        Err(Error::VarEvalArgNumError { expected: 0, actual: 2 })
    );
}

#[test]
fn value_helpers() {
    assert_eq!(Value::bool(true), Value::Integer(1));
    assert_eq!(Value::bool(false), Value::Integer(0));
    assert_eq!(Value::integer(5), Value::Integer(5));
    assert_eq!(Value::string("a"), string("a"));
    assert_eq!(Value::float(float(1.5)), Value::Float(float(1.5)));
    assert_eq!(Value::default(), Value::Unit);
    assert_eq!(string("a").as_str(), Some("a"));
    assert_eq!(Value::Unit.as_str(), None);
    assert_eq!(ints(&[1]).as_list(), Some(&vec![Value::Integer(1)]));
    assert_eq!(Value::Unit.as_list(), None);
    assert_eq!(Value::Unit.to_list(), Some(vec![]));
    assert_eq!(ints(&[1]).to_list(), Some(vec![Value::Integer(1)]));
    assert_eq!(Value::Integer(1).to_list(), None);
    assert_eq!(Value::Integer(1).unwrap_err(), Ok(Value::Integer(1)));
    assert_eq!(
        Value::Error("e".to_string()).unwrap_err(),
        Err(Error::VarEvalError("e".to_string()))
    );
    assert_eq!(Value::Integer(0).to_bool(), Some(false));
    assert_eq!(Value::Integer(3).to_bool(), Some(true));
    assert_eq!(Value::Unit.to_bool(), None);
    assert_eq!(Value::Integer(-3).to_string(), "-3");
    assert_eq!(Value::Error("e".to_string()).to_string(), "Value Error: e");
    assert_eq!(Value::SymbolRef("car".to_string()).to_string(), "@car");
    assert_eq!(ints(&[1, 2]).to_string(), "(1,2)");
    assert_eq!(Value::Integer(isize::MIN).to_string(), format!("{}", isize::MIN));
    assert!(Value::Integer(1).equals(&Value::Integer(1).clone()));
}

#[test]
fn error_texts() {
    assert_eq!(Error::TokenizerError("x".to_string()).to_string(), "Tokenizer error: x");
    assert_eq!(Error::ParserError("x".to_string()).to_string(), "Parser error: x");
    assert_eq!(Error::EvalError("x".to_string()).to_string(), "Evaluation error: x");
    assert_eq!(Error::VarEvalError("x".to_string()).to_string(), "x");
    assert_eq!(
        Error::VarEvalArgNumError { expected: 2, actual: 10 }.to_string(),
        "Invalid number of arguments. Expected 2 but got 10"
    );
}

#[test]
fn a_reply_without_a_request_changes_nothing() {
    let mut machine = Machine::new(Environment::with_default_content(), Capabilities::all());
    machine.load("(+ 1 2)");
    machine.reply(Reply::Done);
    assert_eq!(drive(&mut machine, &mut Host::new()), Ok(Value::Integer(3)));
}

#[test]
fn a_reply_of_the_wrong_kind_is_an_error() {
    let mut machine = Machine::new(Environment::with_default_content(), Capabilities::all());
    machine.load("(read-line)");
    assert_eq!(machine.run(100), Status::Waiting(Request::ReadLine));
    assert_eq!(machine.step(), Status::Waiting(Request::ReadLine));
    machine.reply(Reply::Done);
    assert_eq!(
        machine.run(100),
        Status::Finished(Err(Error::VarEvalError("unexpected reply from the host".to_string())))
    );
}

#[test]
fn a_stopped_machine_says_so_without_fuel() {
    let mut machine = Machine::new(Environment::with_default_content(), Capabilities::all());
    assert!(machine.has_stopped());
    assert_eq!(machine.run(0), Status::Finished(Ok(Value::Unit)));
    machine.load("(read-line)");
    assert!(!machine.has_stopped());
    assert_eq!(machine.run(0), Status::Running);
    assert_eq!(machine.run(3), Status::Waiting(Request::ReadLine));
    assert!(machine.has_stopped());
    assert_eq!(machine.run(0), Status::Waiting(Request::ReadLine));
    machine.reply(Reply::Text("abc\n".to_string()));
    assert_eq!(machine.run(1), Status::Finished(Ok(string("abc"))));
}

#[test]
fn stepping_a_finished_machine_repeats_the_result() {
    let mut machine = Machine::new(Environment::empty(), Capabilities::all());
    assert_eq!(machine.step(), Status::Finished(Ok(Value::Unit)));
    machine.start(AstNode::Value(Value::Integer(4)));
    assert_eq!(machine.step(), Status::Running);
    assert_eq!(machine.step(), Status::Finished(Ok(Value::Integer(4))));
    assert_eq!(machine.step(), Status::Finished(Ok(Value::Integer(4))));
    assert_eq!(machine.env().depth(), 1);
}
