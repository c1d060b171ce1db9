//! The builtins that look at values and at the environment.

use vstd::prelude::*;
use crate::env::string::{list_of_strings, one_or_list, strings_to_value, strings_value};
use crate::env::{Environment, EnvV, Invoke, InvokeV, Pending, PendingV, Request, RequestV, all_names, local_names};
use crate::text::{nat_chars, nat_text, push_chars};
use crate::value::{
    Value, ValueV, arity_error, described, kind_name, lemma_values_view, names_view, result_view,
    values_view, wrong_count,
};
use crate::{Error, ErrorV};

verus! {

/// The lines that `debug` writes for the first `k` of the values: for
/// each its place, a colon, and the words that name it.
pub open spec fn debug_text(args: Seq<ValueV>, k: nat) -> Seq<char>
    decreases k,
{
    if k == 0 || k > args.len() {
        Seq::empty()
    } else {
        debug_text(args, (k - 1) as nat) + nat_text((k - 1) as nat) + ": "@ + described(
            args[k - 1],
        ).push('\n')
    }
}

/// What `debug` comes to: its lines are written, and the unit value is
/// the result.
pub open spec fn debug_spec(args: Seq<ValueV>) -> InvokeV {
    InvokeV::Ask(RequestV::Print(debug_text(args, args.len())), PendingV::Print)
}

/// The names of the kinds of the values.
pub open spec fn kind_names(args: Seq<ValueV>) -> Seq<Seq<char>> {
    Seq::new(args.len(), |i: int| kind_name(args[i]))
}

/// What `type-of` gives: the name of the kind of one operand, or the
/// list of the names for any other number of them.
pub open spec fn type_of_spec(args: Seq<ValueV>) -> Result<ValueV, ErrorV> {
    Ok(one_or_list(kind_names(args)))
}

/// What `local-env` (`local_only` true) and `global-env` give, without
/// operands: the names bound in the innermost scope, or in every scope.
pub open spec fn dump_env_spec(local_only: bool, env: EnvV, args: Seq<ValueV>) -> Result<
    ValueV,
    ErrorV,
> {
    if args.len() != 0 {
        Err(arity_error(0, args.len()))
    } else {
        Ok(
            ValueV::List(
                strings_value(
                    if local_only {
                        local_names(env)
                    } else {
                        all_names(env)
                    },
                ),
            ),
        )
    }
}

/// `debug`: writes its operands, each with its place.
pub struct DebugPrint;

impl DebugPrint {
    /// Applies the operation to `args`.
    pub fn eval(&self, _env: &Environment, args: Vec<Value>) -> (r: Invoke)
        ensures
            r@ == debug_spec(values_view(args@)),
    {
        proof {
            lemma_values_view(args@);
        }
        let ghost av = values_view(args@);
        let mut text = String::new();
        let mut i: usize = 0;
        while i < args.len()
            invariant
                i <= args.len(),
                av == values_view(args@),
                av.len() == args.len(),
                forall|j: int| 0 <= j < args.len() ==> av[j] == args[j]@,
                text@ == debug_text(av, i as nat),
            decreases args.len() - i,
        {
            push_chars(&mut text, &nat_chars(i));
            text.append(": ");
            args[i].describe(&mut text);
            text.push('\n');
            assert(text@ =~= debug_text(av, (i + 1) as nat));
            i += 1;
        }
        Invoke::Ask(Request::Print(text), Pending::Print)
    }
}

/// `type-of`: the names of the kinds of values.
pub struct TypeOf;

impl TypeOf {
    /// The name of the kind of `value`.
    pub fn type_str(value: &Value) -> (r: &'static str)
        ensures
            r@ == kind_name(value@),
    {
        value.type_str()
    }

    /// Applies the operation to `args`.
    pub fn eval(&self, _env: &Environment, args: Vec<Value>) -> (r: Result<Value, Error>)
        ensures
            result_view(r) == type_of_spec(values_view(args@)),
    {
        proof {
            lemma_values_view(args@);
        }
        let mut texts: Vec<String> = Vec::new();
        let mut i: usize = 0;
        while i < args.len()
            invariant
                i <= args.len(),
                texts.len() == i,
                forall|j: int| 0 <= j < i ==> texts[j]@ == kind_name(args[j]@),
            decreases args.len() - i,
        {
            texts.push(String::from_str(TypeOf::type_str(&args[i])));
            i += 1;
        }
        assert(names_view(texts@) =~= kind_names(values_view(args@)));
        Ok(strings_to_value(texts))
    }
}

/// `local-env` and `global-env`: the names that are bound, in the
/// innermost scope only or in every scope.
pub struct DumpEnv<const LOCAL_ONLY: bool>;

impl<const LOCAL_ONLY: bool> DumpEnv<LOCAL_ONLY> {
    /// Applies the operation to `args`.
    pub fn eval(&self, env: &Environment, args: Vec<Value>) -> (r: Result<Value, Error>)
        ensures
            result_view(r) == dump_env_spec(LOCAL_ONLY, env@, values_view(args@)),
    {
        proof {
            lemma_values_view(args@);
        }
        if args.len() != 0 {
            return Err(wrong_count(0, args.len()));
        }
        let vars = if LOCAL_ONLY {
            env.local_vars()
        } else {
            env.all_vars()
        };
        Ok(list_of_strings(vars))
    }
}

} // verus!
