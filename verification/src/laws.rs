//! Laws of the language: what holds of every input, proved from the
//! definitions of the evaluator and the builtins.

use vstd::prelude::*;
use crate::ast::{
    NodeV, all_tokens, balanced, classify, law_balance_decides_reading, node_text, parse_all,
    parse_next,
};
use crate::env::arithmetic::{arith_spec, fold_spec, int_arith};
use crate::env::list::{car_spec, cdr_spec};
use crate::env::{
    ArithOp, Builtin, EnvV, InvokeV, Operand, PendingV, ReplyV, RequestV, ScopeV, VariableV,
    bind_params, default_bindings, env_insert, env_lookup, invoke_spec, pi_value, resume_spec,
    scope_index, scope_insert, scope_lookup,
};
use crate::machine::{
    Capabilities, ControlV, FrameV, MachineV, StatusV, apply_spec, call_form_spec, call_spec,
    eval_spec, form_spec, idle, reply_spec, run_spec, sequence_spec, start_script, step_spec,
    stopped, unwind_spec,
};
use crate::reading::{is_bare_token, law_reading_of_rendered, readable};
use crate::token::{Lexeme, tokens_of};
use crate::value::{FloatV, ValueV};
use crate::ErrorV;

verus! {

/// The sum of two integers is the integer sum, where that is a machine
/// integer; where it is not, the sum fails.
pub proof fn law_sum_of_integers(a: isize, b: isize)
    ensures
        isize::MIN <= a + b <= isize::MAX ==> arith_spec(
            ArithOp::Add,
            seq![ValueV::Integer(a), ValueV::Integer(b)],
        ) == InvokeV::Value(ValueV::Integer((a + b) as isize)),
        !(isize::MIN <= a + b <= isize::MAX) ==> arith_spec(
            ArithOp::Add,
            seq![ValueV::Integer(a), ValueV::Integer(b)],
        ) is Fail,
{
    let args = seq![ValueV::Integer(a), ValueV::Integer(b)];
    let rest = args.drop_first();
    assert(rest.len() == 1);
    assert(rest[0] == ValueV::Integer(b));
    assert(rest.drop_first().len() == 0);
    reveal_with_fuel(fold_spec, 3);
}

/// Arithmetic on an integer and a float, in either order, is done in
/// double precision: the host is asked for the result with the integer
/// as it is, for the host to widen, and whatever number the host gives
/// is the result, a float.
pub proof fn law_mixed_arithmetic_gives_float(op: ArithOp, a: isize, f: FloatV, answer: FloatV)
    ensures
        arith_spec(op, seq![ValueV::Integer(a), ValueV::Float(f)]) == InvokeV::Ask(
            RequestV::FloatArith { op, lhs: Operand::Integer(a), rhs: Operand::Float(f.bits) },
            PendingV::Fold { op, rest: Seq::empty() },
        ),
        arith_spec(op, seq![ValueV::Float(f), ValueV::Integer(a)]) == InvokeV::Ask(
            RequestV::FloatArith { op, lhs: Operand::Float(f.bits), rhs: Operand::Integer(a) },
            PendingV::Fold { op, rest: Seq::empty() },
        ),
        resume_spec(PendingV::Fold { op, rest: Seq::empty() }, ReplyV::Float(answer))
            == InvokeV::Value(ValueV::Float(answer)),
{
    let left = seq![ValueV::Integer(a), ValueV::Float(f)];
    let right = seq![ValueV::Float(f), ValueV::Integer(a)];
    assert(left.drop_first().drop_first() =~= Seq::empty());
    assert(right.drop_first().drop_first() =~= Seq::empty());
    assert(left.drop_first()[0] == ValueV::Float(f));
    assert(right.drop_first()[0] == ValueV::Integer(a));
    reveal_with_fuel(fold_spec, 3);
}

/// A lambda that is called with another number of arguments than it has
/// parameters fails with the error that holds both numbers.
pub proof fn law_wrong_number_of_arguments(
    vars: Seq<Seq<char>>,
    body: Seq<NodeV>,
    args: Seq<ValueV>,
    env: EnvV,
)
    requires
        vars.len() != args.len(),
    ensures
        invoke_spec(VariableV::Const(ValueV::Lambda { vars, body }), env, args) == InvokeV::Fail(
            ErrorV::ArgNum { expected: vars.len(), actual: args.len() },
        ),
{
}

/// A call of a name that is bound to a lambda, with another number of
/// arguments than the lambda has parameters, makes the machine fail with
/// the error that holds both numbers, and changes nothing else.
pub proof fn law_call_with_wrong_number_of_arguments(
    m: MachineV,
    name: Seq<char>,
    vars: Seq<Seq<char>>,
    body: Seq<NodeV>,
    args: Seq<ValueV>,
    forwarded: bool,
)
    requires
        env_lookup(m.env, name) == Some(VariableV::Const(ValueV::Lambda { vars, body })),
        vars.len() != args.len(),
    ensures
        call_spec(m, name, args, forwarded) == m.go(
            ControlV::Raise(ErrorV::ArgNum { expected: vars.len(), actual: args.len() }),
        ),
{
}

/// The first item of an empty list is an error; a list of one item
/// without its first item is the empty list.
pub proof fn law_ends_of_lists(v: ValueV)
    ensures
        car_spec(seq![ValueV::List(Seq::empty())]) is Err,
        cdr_spec(seq![ValueV::List(seq![v])]) == Ok::<ValueV, ErrorV>(ValueV::List(Seq::empty())),
{
    assert(seq![v].drop_first() =~= Seq::empty());
}

/// A script that does not read does not run, wherever in it the error
/// is: the machine that is set out on it, from its text, by `eval` or
/// from a file, fails with the error of the reading at once. It has
/// evaluated nothing, and its environment and its stack are what they
/// were.
pub proof fn law_unreadable_script_is_not_run(
    m: MachineV,
    text: Seq<char>,
    discard: bool,
    e: ErrorV,
)
    requires
        parse_all(tokens_of(text)) == Err::<Seq<NodeV>, ErrorV>(e),
    ensures
        start_script(m, text, discard) == m.go(ControlV::Raise(e)),
{
}

/// One step of a machine that has not stopped uses up one unit of fuel.
pub proof fn lemma_one_step(m: MachineV, fuel: nat)
    requires
        !stopped(m),
        fuel > 0,
    ensures
        run_spec(m, fuel) == run_spec(step_spec(m).0, (fuel - 1) as nat),
{
}

/// A machine that has stopped reports how it stands, whatever the fuel.
pub proof fn lemma_stopped_run(m: MachineV, fuel: nat)
    requires
        stopped(m),
    ensures
        run_spec(m, fuel) == step_spec(m),
{
}

/// A run of a script that does not read is over before its first step,
/// whatever the fuel: it gives the error of the reading, and the
/// environment is what it was.
pub proof fn law_unreadable_script_ends_the_run(
    env: EnvV,
    caps: Capabilities,
    text: Seq<char>,
    e: ErrorV,
    fuel: nat,
)
    requires
        parse_all(tokens_of(text)) == Err::<Seq<NodeV>, ErrorV>(e),
    ensures
        run_spec(start_script(idle(env, caps), text, false), fuel) == (
            idle(env, caps).go(ControlV::Raise(e)),
            StatusV::Finished(Err::<ValueV, ErrorV>(e)),
        ),
{
    let failed = idle(env, caps).go(ControlV::Raise(e));
    assert(step_spec(failed) == (failed, StatusV::Finished(Err::<ValueV, ErrorV>(e))));
    lemma_stopped_run(failed, fuel);
}

/// A script whose parentheses do not balance, with a `)` too many or too
/// few anywhere in it, fails with an error of the parser and is not run:
/// no form of it is evaluated, and the environment is what it was.
pub proof fn law_unbalanced_script_is_not_run(
    env: EnvV,
    caps: Capabilities,
    text: Seq<char>,
    fuel: nat,
)
    requires
        all_tokens(tokens_of(text)),
        !balanced(tokens_of(text), 0),
    ensures
        parse_all(tokens_of(text)) matches Err(ErrorV::Parser(_)),
        run_spec(start_script(idle(env, caps), text, false), fuel).1 == StatusV::Finished(
            Err::<ValueV, ErrorV>(parse_all(tokens_of(text))->Err_0),
        ),
        run_spec(start_script(idle(env, caps), text, false), fuel).0.env == env,
{
    law_balance_decides_reading(tokens_of(text));
    law_unreadable_script_ends_the_run(env, caps, text, parse_all(tokens_of(text))->Err_0, fuel);
}

/// An error passes every frame as it is.
pub proof fn law_errors_pass_unchanged(m: MachineV, frame: FrameV, e: ErrorV)
    ensures
        unwind_spec(m, frame, e).control == ControlV::Raise(e),
        unwind_spec(m, frame, e).stack == m.stack,
{
}

/// An error ends the run as it is, however deep in calls it was raised:
/// the machine takes one step for each frame of its stack, and then
/// gives the error, with its kind and all that it holds.
pub proof fn law_an_error_ends_the_run(m: MachineV, e: ErrorV)
    requires
        m.control == ControlV::Raise(e),
    ensures
        run_spec(m, m.stack.len()).1 == StatusV::Finished(Err::<ValueV, ErrorV>(e)),
    decreases m.stack.len(),
{
    if m.stack.len() == 0 {
        lemma_stopped_run(m, 0);
    } else {
        let next = step_spec(m).0;
        assert(next.stack == m.stack.drop_last());
        lemma_one_step(m, m.stack.len());
        law_an_error_ends_the_run(next, e);
    }
}

/// A call of a lambda with another number of arguments than it has
/// parameters ends the run with the error that holds both numbers,
/// wherever the call is made: at the top of a script or inside the bodies
/// of other lambdas.
pub proof fn law_wrong_number_of_arguments_ends_the_run(
    m: MachineV,
    name: Seq<char>,
    vars: Seq<Seq<char>>,
    body: Seq<NodeV>,
    args: Seq<ValueV>,
    forwarded: bool,
)
    requires
        env_lookup(m.env, name) == Some(VariableV::Const(ValueV::Lambda { vars, body })),
        vars.len() != args.len(),
    ensures
        run_spec(m.go(ControlV::Call { name, args, forwarded }), m.stack.len() + 1).1
            == StatusV::Finished(
            Err::<ValueV, ErrorV>(ErrorV::ArgNum { expected: vars.len(), actual: args.len() }),
        ),
{
    let e = ErrorV::ArgNum { expected: vars.len(), actual: args.len() };
    let start = m.go(ControlV::Call { name, args, forwarded });
    law_call_with_wrong_number_of_arguments(m, name, vars, body, args, forwarded);
    let failed = m.go(ControlV::Raise(e));
    assert(step_spec(start) == (failed, StatusV::Running));
    lemma_one_step(start, m.stack.len() + 1);
    law_an_error_ends_the_run(failed, e);
}

/// The form that adds two integer literals: `(+ a b)`.
pub open spec fn sum_form(a: isize, b: isize) -> NodeV {
    NodeV::List(
        seq![
            NodeV::Symbol("+"@),
            NodeV::Value(ValueV::Integer(a)),
            NodeV::Value(ValueV::Integer(b)),
        ],
    )
}

/// In the default environment `+` is the builtin that adds.
pub proof fn law_default_plus()
    ensures
        env_lookup(seq![default_bindings()], "+"@) == Some(VariableV::Builtin(Builtin::Add)),
{
    let scope = default_bindings();
    assert(scope.len() == 33);
    assert(scope[0] == ("+"@, VariableV::Builtin(Builtin::Add)));
    assert(scope_index(scope, "+"@, 0) == 0);
    assert(seq![scope].last() == scope);
}

/// Wherever `+` is bound to the builtin that adds, and whatever else the
/// machine has to do afterwards, the form `(+ a b)` evaluates to the
/// integer sum of `a` and `b`, where that is a machine integer: six
/// steps lead from the form to its value, and leave the environment and
/// the stack as they were.
pub proof fn law_sum_form_evaluates(m: MachineV, a: isize, b: isize, more: nat)
    requires
        env_lookup(m.env, "+"@) == Some(VariableV::Builtin(Builtin::Add)),
        isize::MIN <= a + b <= isize::MAX,
    ensures
        run_spec(m.go(ControlV::Eval(sum_form(a, b))), 6 + more) == run_spec(
            m.go(ControlV::Return(ValueV::Integer((a + b) as isize))),
            more,
        ),
{
    let plus = "+"@;
    let na = NodeV::Value(ValueV::Integer(a));
    let nb = NodeV::Value(ValueV::Integer(b));
    let l = seq![NodeV::Symbol(plus), na, nb];
    let va = ValueV::Integer(a);
    let vb = ValueV::Integer(b);
    let sum = ValueV::Integer((a + b) as isize);
    let f1 = FrameV::Args { head: plus, rest: seq![nb], done: Seq::empty() };
    let f3 = FrameV::Args { head: plus, rest: Seq::empty(), done: seq![va] };

    let m0 = m.go(ControlV::Eval(sum_form(a, b)));
    let m1 = m.push(f1).go(ControlV::Eval(na));
    let m2 = m.push(f1).go(ControlV::Return(va));
    let m3 = m.push(f3).go(ControlV::Eval(nb));
    let m4 = m.push(f3).go(ControlV::Return(vb));
    let m5 = m.go(ControlV::Call { name: plus, args: seq![va, vb], forwarded: false });
    let m6 = m.go(ControlV::Return(sum));

    assert(step_spec(m0) == (m1, StatusV::Running)) by {
        reveal_strlit("+");
        reveal_strlit("if");
        reveal_strlit("define");
        reveal_strlit("lambda");
        reveal_strlit("progn");
        reveal_strlit("eval");
        reveal_strlit("include");
        assert(plus.len() == 1);
        assert(l.subrange(2, 3).reverse() =~= seq![nb]);
        assert(form_spec(m0, plus, l) == call_form_spec(m0, plus, l));
    }
    assert(step_spec(m1) == (m2, StatusV::Running));
    assert(step_spec(m2) == (m3, StatusV::Running)) by {
        assert(m2.stack.drop_last() =~= m.stack);
        assert(seq![nb].drop_last() =~= Seq::empty());
        assert(Seq::<ValueV>::empty().push(va) =~= seq![va]);
    }
    assert(step_spec(m3) == (m4, StatusV::Running));
    assert(step_spec(m4) == (m5, StatusV::Running)) by {
        assert(m4.stack.drop_last() =~= m.stack);
        assert(seq![va].push(vb) =~= seq![va, vb]);
    }
    assert(step_spec(m5) == (m6, StatusV::Running)) by {
        law_sum_of_integers(a, b);
    }
    lemma_one_step(m0, 6 + more);
    lemma_one_step(m1, 5 + more);
    lemma_one_step(m2, 4 + more);
    lemma_one_step(m3, 3 + more);
    lemma_one_step(m4, 2 + more);
    lemma_one_step(m5, 1 + more);
}

/// The form `(+ a b)` is one that reading gives.
proof fn lemma_sum_form_is_readable(a: isize, b: isize)
    ensures
        readable(sum_form(a, b)),
{
    reveal_strlit("+");
    let plus = "+"@;
    assert(plus.len() == 1);
    assert(plus[0] == '+');
    assert(plus.subrange(1, 1).len() == 0);
    assert(is_bare_token(plus));
    assert(classify(plus) == NodeV::Symbol(plus));
    let l = seq![
        NodeV::Symbol(plus),
        NodeV::Value(ValueV::Integer(a)),
        NodeV::Value(ValueV::Integer(b)),
    ];
    assert(readable(l[0]));
    assert(readable(l[1]));
    assert(readable(l[2]));
    assert forall|i: int| 0 <= i < l.len() implies readable(#[trigger] l[i]) by {
        if i == 0 {
        } else if i == 1 {
        } else {
            assert(i == 2);
        }
    }
}

/// From the characters to the value: the script `(+ a b)`, with `a` and
/// `b` written in decimal, run from its text in an environment where `+`
/// is bound to the builtin that adds, gives the integer sum of `a` and
/// `b`, where that is a machine integer. The run takes eight steps and
/// leaves the environment as it was.
pub proof fn law_sum_script_evaluates(env: EnvV, caps: Capabilities, a: isize, b: isize)
    requires
        env_lookup(env, "+"@) == Some(VariableV::Builtin(Builtin::Add)),
        isize::MIN <= a + b <= isize::MAX,
    ensures
        run_spec(start_script(idle(env, caps), node_text(sum_form(a, b)), false), 8) == (
            idle(env, caps).go(ControlV::Return(ValueV::Integer((a + b) as isize))),
            StatusV::Finished(Ok::<ValueV, ErrorV>(ValueV::Integer((a + b) as isize))),
        ),
{
    let form = sum_form(a, b);
    let text = node_text(form);
    let sum = ValueV::Integer((a + b) as isize);
    let base = idle(env, caps);
    lemma_sum_form_is_readable(a, b);
    law_reading_of_rendered(form);

    assert(parse_next(Seq::<Lexeme>::empty()).0 is None);
    assert(parse_all(Seq::<Lexeme>::empty()) == Ok::<Seq<NodeV>, ErrorV>(Seq::empty()));
    assert(tokens_of(text).len() > 0);
    assert(seq![form] + Seq::<NodeV>::empty() =~= seq![form]);
    assert(parse_all(tokens_of(text)) == Ok::<Seq<NodeV>, ErrorV>(seq![form]));
    assert(seq![form].reverse() =~= seq![form]);
    let start = start_script(base, text, false);
    assert(start == base.push(FrameV::Script { rest: seq![form], discard: false }).go(
        ControlV::Return(ValueV::Unit),
    ));
    assert(start.stack.drop_last() =~= base.stack);
    assert(seq![form].drop_last() =~= Seq::<NodeV>::empty());
    let reading = base.push(FrameV::Script { rest: Seq::empty(), discard: false });
    let m1 = reading.go(ControlV::Eval(form));
    assert(step_spec(start) == (m1, StatusV::Running));

    lemma_one_step(start, 8);
    law_sum_form_evaluates(reading, a, b, 1);
    let m7 = reading.go(ControlV::Return(sum));
    assert(m7.stack.drop_last() =~= base.stack);
    let m8 = base.go(ControlV::Return(sum));
    assert(step_spec(m7) == (m8, StatusV::Running));
    lemma_one_step(m7, 1);
    assert(step_spec(m8) == (m8, StatusV::Finished(Ok::<ValueV, ErrorV>(sum))));
    lemma_stopped_run(m8, 0);
}

/// The number of frames of `stack` that are bodies of lambdas.
pub open spec fn body_frames(stack: Seq<FrameV>) -> nat
    decreases stack.len(),
{
    if stack.len() == 0 {
        0
    } else {
        body_frames(stack.drop_last()) + (if stack.last() is Body {
            1nat
        } else {
            0nat
        })
    }
}

/// Whether the environment of `m` holds `base` scopes and one more for
/// each call that is under way.
pub open spec fn scopes_balanced(m: MachineV, base: nat) -> bool {
    base >= 1 && m.env.len() == base + body_frames(m.stack)
}

proof fn lemma_body_frames_push(stack: Seq<FrameV>, f: FrameV)
    ensures
        body_frames(stack.push(f)) == body_frames(stack) + (if f is Body {
            1nat
        } else {
            0nat
        }),
{
    assert(stack.push(f).drop_last() =~= stack);
}

proof fn lemma_eval_balanced(m: MachineV, node: NodeV, base: nat)
    requires
        scopes_balanced(m, base),
    ensures
        scopes_balanced(eval_spec(m, node), base),
{
    let next = eval_spec(m, node);
    assert(next.env == m.env);
    if next.stack != m.stack {
        let f = choose|f: FrameV| !(f is Body) && next.stack == m.stack.push(f);
        assert(!(f is Body) && next.stack == m.stack.push(f)) by {
            match node {
                NodeV::Float(_) => {
                    assert(next.stack == m.stack.push(FrameV::Pending(PendingV::Literal)));
                },
                NodeV::List(l) => {
                    if l.len() > 0 {
                        match l[0] {
                            NodeV::Symbol(head) => {
                                let n = form_spec(m, head, l);
                                assert(next == n);
                                assert(exists|f: FrameV|
                                    !(f is Body) && n.stack == m.stack.push(f));
                            },
                            _ => {},
                        }
                    }
                },
                _ => {},
            }
        }
        lemma_body_frames_push(m.stack, f);
    }
}

proof fn lemma_apply_balanced(m: MachineV, inv: InvokeV, base: nat)
    requires
        scopes_balanced(m, base),
    ensures
        scopes_balanced(apply_spec(m, inv), base),
{
    match inv {
        InvokeV::Ask(req, p) => {
            lemma_body_frames_push(m.stack, FrameV::Pending(p));
        },
        InvokeV::Enter { scope, body } => {
            if body.len() > 0 {
                lemma_body_frames_push(
                    m.stack,
                    FrameV::Body { rest: body.subrange(1, body.len() as int).reverse() },
                );
            }
        },
        InvokeV::Script { text, discard } => {
            match parse_all(tokens_of(text)) {
                Ok(forms) => {
                    lemma_body_frames_push(
                        m.stack,
                        FrameV::Script { rest: forms.reverse(), discard },
                    );
                },
                Err(e) => {},
            }
        },
        _ => {},
    }
}

proof fn lemma_sequence_balanced(m: MachineV, rest: Seq<NodeV>, v: ValueV, body: bool, base: nat)
    requires
        base >= 1,
        m.env.len() == base + body_frames(m.stack) + (if body {
            1nat
        } else {
            0nat
        }),
    ensures
        scopes_balanced(sequence_spec(m, rest, v, body), base),
{
    if rest.len() > 0 {
        if body {
            lemma_body_frames_push(m.stack, FrameV::Body { rest: rest.drop_last() });
        } else {
            lemma_body_frames_push(m.stack, FrameV::Progn { rest: rest.drop_last() });
        }
    }
}

/// A step of the machine keeps the scopes in balance with the calls that
/// are under way: a call opens exactly one scope, and the end of its
/// body, by a value or by an error, closes exactly that one.
pub proof fn law_step_keeps_scopes_balanced(m: MachineV, base: nat)
    requires
        scopes_balanced(m, base),
    ensures
        scopes_balanced(step_spec(m).0, base),
{
    match m.control {
        ControlV::Await(_) => {},
        ControlV::Eval(node) => {
            lemma_eval_balanced(m, node, base);
        },
        ControlV::Call { name, args, forwarded } => {
            match env_lookup(m.env, name) {
                None => {},
                Some(var) => {
                    lemma_apply_balanced(m, invoke_spec(var, m.env, args), base);
                },
            }
        },
        ControlV::Return(v) => {
            if m.stack.len() > 0 {
                let below = MachineV { stack: m.stack.drop_last(), ..m };
                match m.stack.last() {
                    FrameV::Progn { rest } => {
                        lemma_sequence_balanced(below, rest, v, false, base);
                    },
                    FrameV::Body { rest } => {
                        lemma_sequence_balanced(below, rest, v, true, base);
                    },
                    FrameV::Args { head, rest, done } => {
                        if rest.len() > 0 {
                            lemma_body_frames_push(
                                below.stack,
                                FrameV::Args { head, rest: rest.drop_last(), done: done.push(v) },
                            );
                        }
                    },
                    FrameV::Script { rest, discard } => {
                        if rest.len() > 0 {
                            lemma_body_frames_push(
                                below.stack,
                                FrameV::Script { rest: rest.drop_last(), discard },
                            );
                        }
                    },
                    _ => {},
                }
            }
        },
        ControlV::Raise(e) => {},
    }
}

/// A reply of the host keeps the scopes in balance with the calls that
/// are under way.
pub proof fn law_reply_keeps_scopes_balanced(m: MachineV, reply: ReplyV, base: nat)
    requires
        scopes_balanced(m, base),
    ensures
        scopes_balanced(reply_spec(m, reply), base),
{
    if m.control is Await && m.stack.len() > 0 {
        match m.stack.last() {
            FrameV::Pending(p) => {
                lemma_apply_balanced(
                    MachineV { stack: m.stack.drop_last(), ..m },
                    resume_spec(p, reply),
                    base,
                );
            },
            _ => {},
        }
    }
}

/// However many steps the machine runs, the scopes stay in balance; so
/// when a run is over, the environment holds the scopes it began with,
/// and every scope that a call opened is gone.
pub proof fn law_run_keeps_scopes_balanced(m: MachineV, fuel: nat, base: nat)
    requires
        scopes_balanced(m, base),
    ensures
        scopes_balanced(run_spec(m, fuel).0, base),
        run_spec(m, fuel).1 is Finished ==> run_spec(m, fuel).0.env.len() == base,
    decreases fuel,
{
    law_step_keeps_scopes_balanced(m, base);
    if !stopped(m) && fuel > 0 {
        law_run_keeps_scopes_balanced(step_spec(m).0, (fuel - 1) as nat, base);
    }
}

/// What `scope_index` finds: the first place at or after `from` that
/// holds `name`, with no such place before it.
proof fn lemma_scope_index(scope: ScopeV, name: Seq<char>, from: int)
    requires
        0 <= from <= scope.len(),
    ensures
        from <= scope_index(scope, name, from) <= scope.len(),
        scope_index(scope, name, from) < scope.len() ==> scope[scope_index(scope, name, from)].0
            == name,
        forall|k: int| from <= k < scope_index(scope, name, from) ==> (#[trigger] scope[k]).0 != name,
    decreases scope.len() - from,
{
    if from < scope.len() && scope[from].0 != name {
        lemma_scope_index(scope, name, from + 1);
    }
}

/// The place that `scope_index` finds is the only one with its two
/// properties.
proof fn lemma_scope_index_is(scope: ScopeV, name: Seq<char>, from: int, i: int)
    requires
        0 <= from <= i <= scope.len(),
        i < scope.len() ==> scope[i].0 == name,
        forall|k: int| from <= k < i ==> (#[trigger] scope[k]).0 != name,
    ensures
        scope_index(scope, name, from) == i,
    decreases i - from,
{
    if from < i {
        lemma_scope_index_is(scope, name, from + 1, i);
    }
}

/// In a scope, a name that was just bound is bound to what it was bound
/// to, and every other name is bound as before.
pub proof fn law_scope_insert(scope: ScopeV, name: Seq<char>, var: VariableV, other: Seq<char>)
    ensures
        scope_lookup(scope_insert(scope, name, var), name) == Some(var),
        other != name ==> scope_lookup(scope_insert(scope, name, var), other) == scope_lookup(
            scope,
            other,
        ),
{
    let i = scope_index(scope, name, 0);
    let after = scope_insert(scope, name, var);
    lemma_scope_index(scope, name, 0);
    assert forall|k: int| 0 <= k < i implies (#[trigger] after[k]).0 != name by {
        assert(after[k] == scope[k]);
    }
    lemma_scope_index_is(after, name, 0, i);
    if other != name {
        let j = scope_index(scope, other, 0);
        lemma_scope_index(scope, other, 0);
        assert forall|k: int| 0 <= k < j implies (#[trigger] after[k]).0 != other by {
            if k != i {
                assert(after[k] == scope[k]);
            }
        }
        if j < scope.len() {
            assert(j != i);
            assert(after[j] == scope[j]);
            lemma_scope_index_is(after, other, 0, j);
        } else if i < scope.len() {
            lemma_scope_index_is(after, other, 0, j);
        } else {
            assert(after[j].0 == name);
            lemma_scope_index_is(after, other, 0, j + 1);
        }
    }
}

/// Binding a name overwrites what the innermost scope bound it to, and
/// nothing else: the name then resolves to the new binding, every other
/// name resolves as before, and the scopes around the innermost one are
/// what they were.
pub proof fn law_insert_binds_in_the_innermost_scope(
    env: EnvV,
    name: Seq<char>,
    var: VariableV,
    other: Seq<char>,
)
    ensures
        env_lookup(env_insert(env, name, var), name) == Some(var),
        other != name ==> env_lookup(env_insert(env, name, var), other) == env_lookup(env, other),
        env.len() > 0 ==> env_insert(env, name, var).len() == env.len() && env_insert(
            env,
            name,
            var,
        ).drop_last() == env.drop_last(),
{
    let after = env_insert(env, name, var);
    if env.len() == 0 {
        law_scope_insert(Seq::empty(), name, var, other);
        assert(after.last() == scope_insert(Seq::empty(), name, var));
        assert(after.drop_last() =~= env);
    } else {
        law_scope_insert(env.last(), name, var, other);
        assert(after.last() == scope_insert(env.last(), name, var));
        assert(after.drop_last() =~= env.drop_last());
    }
}

/// A name that an inner scope binds shadows the bindings of the scopes
/// around it, and a name that it does not bind resolves as around it.
pub proof fn law_inner_scope_shadows(env: EnvV, scope: ScopeV, name: Seq<char>)
    ensures
        env_lookup(env.push(scope), name) == (match scope_lookup(scope, name) {
            Some(v) => Some(v),
            None => env_lookup(env, name),
        }),
{
    assert(env.push(scope).drop_last() =~= env);
}

/// A call of a lambda runs in the environment of the call: the scope of
/// the parameters is opened inside the environment that is active where
/// the call is made, whatever the environment was when the lambda was
/// made, and the first form of the body is evaluated there.
pub proof fn law_call_runs_in_the_environment_of_the_caller(
    m: MachineV,
    name: Seq<char>,
    vars: Seq<Seq<char>>,
    body: Seq<NodeV>,
    args: Seq<ValueV>,
    forwarded: bool,
)
    requires
        env_lookup(m.env, name) == Some(VariableV::Const(ValueV::Lambda { vars, body })),
        vars.len() == args.len(),
        body.len() > 0,
    ensures
        call_spec(m, name, args, forwarded).env == m.env.push(bind_params(vars, args, vars.len())),
        call_spec(m, name, args, forwarded).control == ControlV::Eval(body[0]),
        call_spec(m, name, args, forwarded).stack == m.stack.push(
            FrameV::Body { rest: body.subrange(1, body.len() as int).reverse() },
        ),
{
}

/// A script without forms gives the unit value, in one step and without
/// a change to the environment.
pub proof fn law_empty_script(env: EnvV, caps: Capabilities, text: Seq<char>)
    requires
        parse_all(tokens_of(text)) == Ok::<Seq<NodeV>, ErrorV>(Seq::empty()),
    ensures
        run_spec(start_script(idle(env, caps), text, false), 1) == (
            idle(env, caps),
            StatusV::Finished(Ok::<ValueV, ErrorV>(ValueV::Unit)),
        ),
{
    let start = start_script(idle(env, caps), text, false);
    assert(Seq::<NodeV>::empty().reverse() =~= Seq::<NodeV>::empty());
    assert(start.stack.drop_last() =~= Seq::empty());
    assert(step_spec(start) == (idle(env, caps), StatusV::Running));
    lemma_one_step(start, 1);
    lemma_stopped_run(idle(env, caps), 0);
}

/// Fuel only bounds a run: once a run has stopped, because it is over or
/// because it waits for the host, more fuel changes nothing.
pub proof fn law_more_fuel_changes_nothing(m: MachineV, fuel: nat, more: nat)
    requires
        !(run_spec(m, fuel).1 is Running),
        more >= fuel,
    ensures
        run_spec(m, more) == run_spec(m, fuel),
    decreases fuel,
{
    if !stopped(m) && fuel > 0 {
        law_more_fuel_changes_nothing(step_spec(m).0, (fuel - 1) as nat, (more - 1) as nat);
    }
}

/// A run can be made in pieces: running on from where a first run
/// stopped for want of fuel is running once with the fuel of both.
pub proof fn law_run_in_pieces(m: MachineV, first: nat, second: nat)
    ensures
        run_spec(m, first + second) == (if run_spec(m, first).1 is Running {
            run_spec(run_spec(m, first).0, second)
        } else {
            run_spec(m, first)
        }),
    decreases first,
{
    if !stopped(m) && first > 0 {
        law_run_in_pieces(step_spec(m).0, (first - 1) as nat, second);
    }
}

/// A machine whose run is over, or that waits for the host, stays as it
/// is however often it is stepped.
pub proof fn law_stopped_machine_stays(m: MachineV)
    requires
        !(step_spec(m).1 is Running),
    ensures
        step_spec(m).0 == m,
{
}

/// Whether no name is bound twice in `scope`: a scope is a mapping from
/// names to bindings.
pub open spec fn unique_names(scope: ScopeV) -> bool {
    forall|i: int, j: int| 0 <= i < j < scope.len() ==> scope[i].0 != scope[j].0
}

/// Whether no scope of `env` binds a name twice.
pub open spec fn scopes_unique(env: EnvV) -> bool {
    forall|i: int| 0 <= i < env.len() ==> unique_names(#[trigger] env[i])
}

/// The number of the character of `s` at `i`; -1 where `s` has none
/// there.
pub open spec fn char_at(s: Seq<char>, i: int) -> int {
    if 0 <= i < s.len() {
        s[i] as int
    } else {
        -1
    }
}

/// A number made of the length of a name and of three of its
/// characters: names with different numbers are different names.
pub open spec fn name_key(s: Seq<char>) -> int {
    s.len() + 100 * char_at(s, 0) + 100_000 * char_at(s, 1) + 100_000_000 * char_at(s, 5)
}

/// Whether the number of every name of `scope` is in `keys`.
pub open spec fn keyed(scope: ScopeV, keys: Set<int>) -> bool {
    forall|j: int| 0 <= j < scope.len() ==> keys.contains(name_key((#[trigger] scope[j]).0))
}

/// A scope with unique names, and one more binding of a name whose
/// number none of its names has, has unique names.
proof fn lemma_push_keyed(scope: ScopeV, name: Seq<char>, var: VariableV, keys: Set<int>)
    requires
        unique_names(scope),
        keyed(scope, keys),
        !keys.contains(name_key(name)),
    ensures
        unique_names(scope.push((name, var))),
        keyed(scope.push((name, var)), keys.insert(name_key(name))),
{
    let after = scope.push((name, var));
    assert forall|i: int, j: int| 0 <= i < j < after.len() implies after[i].0 != after[j].0 by {
        assert(after[i] == scope[i]);
        if j < scope.len() {
            assert(after[j] == scope[j]);
        }
    }
    assert forall|j: int| 0 <= j < after.len() implies keys.insert(name_key(name)).contains(
        name_key((#[trigger] after[j]).0),
    ) by {
        if j < scope.len() {
            assert(after[j] == scope[j]);
        }
    }
}

/// Binding a name in a scope keeps the names of the scope unique.
pub proof fn law_scope_insert_keeps_names_unique(scope: ScopeV, name: Seq<char>, var: VariableV)
    requires
        unique_names(scope),
    ensures
        unique_names(scope_insert(scope, name, var)),
{
    let i = scope_index(scope, name, 0);
    lemma_scope_index(scope, name, 0);
    let after = scope_insert(scope, name, var);
    assert forall|a: int, b: int| 0 <= a < b < after.len() implies after[a].0 != after[b].0 by {
        if i < scope.len() {
            assert(after[a].0 == scope[a].0);
            assert(after[b].0 == scope[b].0);
        } else {
            assert(after[a] == scope[a]);
            if b < scope.len() {
                assert(after[b] == scope[b]);
            }
        }
    }
}

/// The scope of a call binds each parameter name once.
pub proof fn law_parameters_are_bound_once(vars: Seq<Seq<char>>, args: Seq<ValueV>, k: nat)
    ensures
        unique_names(bind_params(vars, args, k)),
    decreases k,
{
    if !(k == 0 || k > vars.len() || k > args.len()) {
        law_parameters_are_bound_once(vars, args, (k - 1) as nat);
        law_scope_insert_keeps_names_unique(
            bind_params(vars, args, (k - 1) as nat),
            vars[k - 1],
            VariableV::Const(args[k - 1]),
        );
    }
}

/// Binding a name in an environment keeps the names of every scope
/// unique.
pub proof fn law_insert_keeps_names_unique(env: EnvV, name: Seq<char>, var: VariableV)
    requires
        scopes_unique(env),
    ensures
        scopes_unique(env_insert(env, name, var)),
{
    let after = env_insert(env, name, var);
    if env.len() == 0 {
        law_scope_insert_keeps_names_unique(Seq::empty(), name, var);
    } else {
        law_scope_insert_keeps_names_unique(env.last(), name, var);
    }
    assert forall|i: int| 0 <= i < after.len() implies unique_names(#[trigger] after[i]) by {
        if env.len() > 0 && i < env.len() - 1 {
            assert(after[i] == env[i]);
        }
    }
}

/// The default environment binds each of its names once.
pub proof fn law_default_names_are_unique()
    ensures
        unique_names(default_bindings()),
        scopes_unique(seq![default_bindings()]),
{
    let s0 = Seq::<(Seq<char>, VariableV)>::empty();
    let k0 = Set::<int>::empty();
    reveal_strlit("+");
    assert(name_key("+"@) == -100095699);
    lemma_push_keyed(s0, "+"@, VariableV::Builtin(Builtin::Add), k0);
    let s1 = s0.push(("+"@, VariableV::Builtin(Builtin::Add)));
    let k1 = k0.insert(-100095699);
    reveal_strlit("-");
    assert(name_key("-"@) == -100095499);
    lemma_push_keyed(s1, "-"@, VariableV::Builtin(Builtin::Sub), k1);
    let s2 = s1.push(("-"@, VariableV::Builtin(Builtin::Sub)));
    let k2 = k1.insert(-100095499);
    reveal_strlit("*");
    assert(name_key("*"@) == -100095799);
    lemma_push_keyed(s2, "*"@, VariableV::Builtin(Builtin::Mul), k2);
    let s3 = s2.push(("*"@, VariableV::Builtin(Builtin::Mul)));
    let k3 = k2.insert(-100095799);
    reveal_strlit("/");
    assert(name_key("/"@) == -100095299);
    lemma_push_keyed(s3, "/"@, VariableV::Builtin(Builtin::Div), k3);
    let s4 = s3.push(("/"@, VariableV::Builtin(Builtin::Div)));
    let k4 = k3.insert(-100095299);
    reveal_strlit("mod");
    assert(name_key("mod"@) == -88889097);
    lemma_push_keyed(s4, "mod"@, VariableV::Builtin(Builtin::Mod), k4);
    let s5 = s4.push(("mod"@, VariableV::Builtin(Builtin::Mod)));
    let k5 = k4.insert(-88889097);
    reveal_strlit("==");
    assert(name_key("=="@) == -93893898);
    lemma_push_keyed(s5, "=="@, VariableV::Builtin(Builtin::Eq), k5);
    let s6 = s5.push(("=="@, VariableV::Builtin(Builtin::Eq)));
    let k6 = k5.insert(-93893898);
    reveal_strlit("<");
    assert(name_key("<"@) == -100093999);
    lemma_push_keyed(s6, "<"@, VariableV::Builtin(Builtin::Lt), k6);
    let s7 = s6.push(("<"@, VariableV::Builtin(Builtin::Lt)));
    let k7 = k6.insert(-100093999);
    reveal_strlit(">");
    assert(name_key(">"@) == -100093799);
    lemma_push_keyed(s7, ">"@, VariableV::Builtin(Builtin::Gt), k7);
    let s8 = s7.push((">"@, VariableV::Builtin(Builtin::Gt)));
    let k8 = k7.insert(-100093799);
    reveal_strlit("not");
    assert(name_key("not"@) == -88888997);
    lemma_push_keyed(s8, "not"@, VariableV::Builtin(Builtin::Not), k8);
    let s9 = s8.push(("not"@, VariableV::Builtin(Builtin::Not)));
    let k9 = k8.insert(-88888997);
    reveal_strlit("or");
    assert(name_key("or"@) == -88588898);
    lemma_push_keyed(s9, "or"@, VariableV::Builtin(Builtin::Or), k9);
    let s10 = s9.push(("or"@, VariableV::Builtin(Builtin::Or)));
    let k10 = k9.insert(-88588898);
    reveal_strlit("and");
    assert(name_key("and"@) == -88990297);
    lemma_push_keyed(s10, "and"@, VariableV::Builtin(Builtin::And), k10);
    let s11 = s10.push(("and"@, VariableV::Builtin(Builtin::And)));
    let k11 = k10.insert(-88990297);
    reveal_strlit("pi");
    assert(name_key("pi"@) == -89488798);
    lemma_push_keyed(s11, "pi"@, VariableV::Const(pi_value()), k11);
    let s12 = s11.push(("pi"@, VariableV::Const(pi_value())));
    let k12 = k11.insert(-89488798);
    reveal_strlit("begin");
    assert(name_key("begin"@) == -89890195);
    lemma_push_keyed(s12, "begin"@, VariableV::Builtin(Builtin::Begin), k12);
    let s13 = s12.push(("begin"@, VariableV::Builtin(Builtin::Begin)));
    let k13 = k12.insert(-89890195);
    reveal_strlit("list");
    assert(name_key("list"@) == -89489196);
    lemma_push_keyed(s13, "list"@, VariableV::Builtin(Builtin::MkList), k13);
    let s14 = s13.push(("list"@, VariableV::Builtin(Builtin::MkList)));
    let k14 = k13.insert(-89489196);
    reveal_strlit("car");
    assert(name_key("car"@) == -90290097);
    lemma_push_keyed(s14, "car"@, VariableV::Builtin(Builtin::Car), k14);
    let s15 = s14.push(("car"@, VariableV::Builtin(Builtin::Car)));
    let k15 = k14.insert(-90290097);
    reveal_strlit("cdr");
    assert(name_key("cdr"@) == -89990097);
    lemma_push_keyed(s15, "cdr"@, VariableV::Builtin(Builtin::Cdr), k15);
    let s16 = s15.push(("cdr"@, VariableV::Builtin(Builtin::Cdr)));
    let k16 = k15.insert(-89990097);
    reveal_strlit("cons");
    assert(name_key("cons"@) == -88890096);
    lemma_push_keyed(s16, "cons"@, VariableV::Builtin(Builtin::Cons), k16);
    let s17 = s16.push(("cons"@, VariableV::Builtin(Builtin::Cons)));
    let k17 = k16.insert(-88890096);
    reveal_strlit("length");
    assert(name_key("length"@) == 10410110806);
    lemma_push_keyed(s17, "length"@, VariableV::Builtin(Builtin::Length), k17);
    let s18 = s17.push(("length"@, VariableV::Builtin(Builtin::Length)));
    let k18 = k17.insert(10410110806);
    reveal_strlit("endp");
    assert(name_key("endp"@) == -88989896);
    lemma_push_keyed(s18, "endp"@, VariableV::Builtin(Builtin::Endp), k18);
    let s19 = s18.push(("endp"@, VariableV::Builtin(Builtin::Endp)));
    let k19 = k18.insert(-88989896);
    reveal_strlit("read-line");
    assert(name_key("read-line"@) == 10810111409);
    lemma_push_keyed(s19, "read-line"@, VariableV::Builtin(Builtin::ReadLine), k19);
    let s20 = s19.push(("read-line"@, VariableV::Builtin(Builtin::ReadLine)));
    let k20 = k19.insert(10810111409);
    reveal_strlit("read-file");
    assert(name_key("read-file"@) == 10210111409);
    lemma_push_keyed(s20, "read-file"@, VariableV::Builtin(Builtin::ReadFile), k20);
    let s21 = s20.push(("read-file"@, VariableV::Builtin(Builtin::ReadFile)));
    let k21 = k20.insert(10210111409);
    reveal_strlit("print");
    assert(name_key("print"@) == -88588795);
    lemma_push_keyed(s21, "print"@, VariableV::Builtin(Builtin::Print), k21);
    let s22 = s21.push(("print"@, VariableV::Builtin(Builtin::Print)));
    let k22 = k21.insert(-88588795);
    reveal_strlit("parse-int");
    assert(name_key("parse-int"@) == 4509711209);
    lemma_push_keyed(s22, "parse-int"@, VariableV::Builtin(Builtin::ParseInt), k22);
    let s23 = s22.push(("parse-int"@, VariableV::Builtin(Builtin::ParseInt)));
    let k23 = k22.insert(4509711209);
    reveal_strlit("system");
    assert(name_key("system"@) == 10912111506);
    lemma_push_keyed(s23, "system"@, VariableV::Builtin(Builtin::System), k23);
    let s24 = s23.push(("system"@, VariableV::Builtin(Builtin::System)));
    let k24 = k23.insert(10912111506);
    reveal_strlit("str-split");
    assert(name_key("str-split"@) == 11211611509);
    lemma_push_keyed(s24, "str-split"@, VariableV::Builtin(Builtin::Split), k24);
    let s25 = s24.push(("str-split"@, VariableV::Builtin(Builtin::Split)));
    let k25 = k24.insert(11211611509);
    reveal_strlit("str-lines");
    assert(name_key("str-lines"@) == 10511611509);
    lemma_push_keyed(s25, "str-lines"@, VariableV::Builtin(Builtin::Lines), k25);
    let s26 = s25.push(("str-lines"@, VariableV::Builtin(Builtin::Lines)));
    let k26 = k25.insert(10511611509);
    reveal_strlit("str-concat");
    assert(name_key("str-concat"@) == 11111611510);
    lemma_push_keyed(s26, "str-concat"@, VariableV::Builtin(Builtin::Concat), k26);
    let s27 = s26.push(("str-concat"@, VariableV::Builtin(Builtin::Concat)));
    let k27 = k26.insert(11111611510);
    reveal_strlit("str-join");
    assert(name_key("str-join"@) == 11111611508);
    lemma_push_keyed(s27, "str-join"@, VariableV::Builtin(Builtin::Join), k27);
    let s28 = s27.push(("str-join"@, VariableV::Builtin(Builtin::Join)));
    let k28 = k27.insert(11111611508);
    reveal_strlit("to-string");
    assert(name_key("to-string"@) == 11411111609);
    lemma_push_keyed(s28, "to-string"@, VariableV::Builtin(Builtin::ToString), k28);
    let s29 = s28.push(("to-string"@, VariableV::Builtin(Builtin::ToString)));
    let k29 = k28.insert(11411111609);
    reveal_strlit("debug");
    assert(name_key("debug"@) == -89889995);
    lemma_push_keyed(s29, "debug"@, VariableV::Builtin(Builtin::DebugPrint), k29);
    let s30 = s29.push(("debug"@, VariableV::Builtin(Builtin::DebugPrint)));
    let k30 = k29.insert(-89889995);
    reveal_strlit("type-of");
    assert(name_key("type-of"@) == 11112111607);
    lemma_push_keyed(s30, "type-of"@, VariableV::Builtin(Builtin::TypeOf), k30);
    let s31 = s30.push(("type-of"@, VariableV::Builtin(Builtin::TypeOf)));
    let k31 = k30.insert(11112111607);
    reveal_strlit("local-env");
    assert(name_key("local-env"@) == 4511110809);
    lemma_push_keyed(s31, "local-env"@, VariableV::Builtin(Builtin::LocalEnv), k31);
    let s32 = s31.push(("local-env"@, VariableV::Builtin(Builtin::LocalEnv)));
    let k32 = k31.insert(4511110809);
    reveal_strlit("global-env");
    assert(name_key("global-env"@) == 10810810310);
    lemma_push_keyed(s32, "global-env"@, VariableV::Builtin(Builtin::GlobalEnv), k32);
    let s33 = s32.push(("global-env"@, VariableV::Builtin(Builtin::GlobalEnv)));
    let k33 = k32.insert(10810810310);
    assert(s33 == default_bindings());
}

/// A step of the machine keeps the names of every scope unique.
pub proof fn law_step_keeps_names_unique(m: MachineV)
    requires
        scopes_unique(m.env),
    ensures
        scopes_unique(step_spec(m).0.env),
{
    let next = step_spec(m).0;
    match m.control {
        ControlV::Call { name, args, forwarded } => {
            match env_lookup(m.env, name) {
                Some(var) => {
                    lemma_invoke_binds_once(var, m.env, args);
                    lemma_apply_keeps_names_unique(m, invoke_spec(var, m.env, args));
                },
                None => {},
            }
        },
        ControlV::Return(v) => {
            if m.stack.len() > 0 {
                match m.stack.last() {
                    FrameV::Define { name } => {
                        law_insert_keeps_names_unique(m.env, name, VariableV::Const(v));
                    },
                    _ => {},
                }
            }
        },
        ControlV::Eval(node) => {
            assert(next.env == m.env);
        },
        _ => {},
    }
}

/// A fold of arithmetic opens no scope.
proof fn lemma_fold_opens_no_scope(op: ArithOp, acc: ValueV, rest: Seq<ValueV>)
    ensures
        !(fold_spec(op, acc, rest) is Enter),
    decreases rest.len(),
{
    if rest.len() > 0 {
        match (acc, rest[0]) {
            (ValueV::Integer(a), ValueV::Integer(b)) => {
                match int_arith(op, a, b) {
                    Some(r) => {
                        lemma_fold_opens_no_scope(op, ValueV::Integer(r), rest.drop_first());
                    },
                    None => {},
                }
            },
            _ => {},
        }
    }
}

/// The scope that invoking a binding opens binds each name once.
proof fn lemma_invoke_binds_once(var: VariableV, env: EnvV, args: Seq<ValueV>)
    ensures
        invoke_spec(var, env, args) matches InvokeV::Enter { scope, .. } ==> unique_names(scope),
{
    match var {
        VariableV::Const(ValueV::Lambda { vars, body }) => {
            law_parameters_are_bound_once(vars, args, vars.len());
        },
        VariableV::Builtin(b) => {
            if args.len() > 0 {
                lemma_fold_opens_no_scope(ArithOp::Add, args[0], args.drop_first());
                lemma_fold_opens_no_scope(ArithOp::Sub, args[0], args.drop_first());
                lemma_fold_opens_no_scope(ArithOp::Mul, args[0], args.drop_first());
                lemma_fold_opens_no_scope(ArithOp::Div, args[0], args.drop_first());
                lemma_fold_opens_no_scope(ArithOp::Rem, args[0], args.drop_first());
            }
        },
        _ => {},
    }
}

proof fn lemma_apply_keeps_names_unique(m: MachineV, inv: InvokeV)
    requires
        scopes_unique(m.env),
        inv matches InvokeV::Enter { scope, .. } ==> unique_names(scope),
    ensures
        scopes_unique(apply_spec(m, inv).env),
{
    match inv {
        InvokeV::Enter { scope, body } => {
            if body.len() > 0 {
                let after = m.env.push(scope);
                assert forall|i: int| 0 <= i < after.len() implies unique_names(
                    #[trigger] after[i],
                ) by {
                    if i < m.env.len() {
                        assert(after[i] == m.env[i]);
                    }
                }
            }
        },
        _ => {},
    }
}

/// A reply of the host keeps the names of every scope unique.
pub proof fn law_reply_keeps_names_unique(m: MachineV, reply: ReplyV)
    requires
        scopes_unique(m.env),
    ensures
        scopes_unique(reply_spec(m, reply).env),
{
    if m.control is Await && m.stack.len() > 0 {
        match m.stack.last() {
            FrameV::Pending(p) => {
                lemma_apply_keeps_names_unique(
                    MachineV { stack: m.stack.drop_last(), ..m },
                    resume_spec(p, reply),
                );
            },
            _ => {},
        }
    }
}

/// However many steps the machine runs, every scope stays a mapping: no
/// name is bound twice in one scope.
pub proof fn law_run_keeps_names_unique(m: MachineV, fuel: nat)
    requires
        scopes_unique(m.env),
    ensures
        scopes_unique(run_spec(m, fuel).0.env),
    decreases fuel,
{
    law_step_keeps_names_unique(m);
    if !stopped(m) && fuel > 0 {
        law_run_keeps_names_unique(step_spec(m).0, (fuel - 1) as nat);
    }
}

/// In a scope that binds each name once, every name resolves to the
/// binding that stands with it.
pub proof fn law_unique_names_resolve(scope: ScopeV, i: int)
    requires
        unique_names(scope),
        0 <= i < scope.len(),
    ensures
        scope_lookup(scope, scope[i].0) == Some(scope[i].1),
{
    lemma_scope_index_is(scope, scope[i].0, 0, i);
}

/// The default environment resolves every name of the builtin library to
/// the binding that the library lists under it.
pub proof fn law_default_environment_resolves(i: int)
    requires
        0 <= i < default_bindings().len(),
    ensures
        env_lookup(seq![default_bindings()], default_bindings()[i].0) == Some(
            default_bindings()[i].1,
        ),
{
    law_default_names_are_unique();
    law_unique_names_resolve(default_bindings(), i);
    assert(seq![default_bindings()].last() == default_bindings());
}

} // verus!
