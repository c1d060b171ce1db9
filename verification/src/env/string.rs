//! The string builtins.

use vstd::prelude::*;
use crate::env::Environment;
use crate::text::{chars_of, string_of_range};
use crate::value::{
    Value, ValueV, arity_error, lemma_values_view, msg_one, names_view, result_view, value_text,
    values_view, wrong_count,
};
use crate::{Error, ErrorV};

verus! {

/// The string values of a sequence of texts.
pub open spec fn strings_value(texts: Seq<Seq<char>>) -> Seq<ValueV> {
    Seq::new(texts.len(), |i: int| ValueV::String(texts[i]))
}

/// One text as a string value; any other number of texts as the list of
/// their string values.
pub open spec fn one_or_list(texts: Seq<Seq<char>>) -> ValueV {
    if texts.len() == 1 {
        ValueV::String(texts[0])
    } else {
        ValueV::List(strings_value(texts))
    }
}

/// The list value of the strings `texts`.
pub fn list_of_strings(texts: Vec<String>) -> (r: Value)
    ensures
        r@ == ValueV::List(strings_value(names_view(texts@))),
{
    let mut texts = texts;
    let ghost all = names_view(texts@);
    let mut out: Vec<Value> = Vec::new();
    // The strings are taken from the end, and the list is put in order
    // afterwards.
    while texts.len() > 0
        invariant
            texts.len() + out.len() == all.len(),
            forall|j: int| 0 <= j < texts.len() ==> texts[j]@ == all[j],
            forall|j: int|
                0 <= j < out.len() ==> out[j]@ == ValueV::String(all[all.len() - 1 - j]),
        decreases texts.len(),
    {
        let t = texts.pop().unwrap();
        out.push(Value::String(t));
    }
    let mut ordered: Vec<Value> = Vec::new();
    while out.len() > 0
        invariant
            ordered.len() + out.len() == all.len(),
            forall|j: int|
                0 <= j < out.len() ==> out[j]@ == ValueV::String(all[all.len() - 1 - j]),
            forall|j: int| 0 <= j < ordered.len() ==> ordered[j]@ == ValueV::String(all[j]),
        decreases out.len(),
    {
        let v = out.pop().unwrap();
        ordered.push(v);
    }
    proof {
        lemma_values_view(ordered@);
        assert(values_view(ordered@) =~= strings_value(all));
    }
    Value::List(ordered)
}

/// One string as a string value; any other number of strings as their
/// list.
pub fn strings_to_value(texts: Vec<String>) -> (r: Value)
    ensures
        r@ == one_or_list(names_view(texts@)),
{
    let mut texts = texts;
    if texts.len() == 1 {
        let t = texts.pop().unwrap();
        Value::String(t)
    } else {
        list_of_strings(texts)
    }
}

/// Whether `sep` stands in `s` at the position `i`.
pub open spec fn occurs_at(s: Seq<char>, sep: Seq<char>, i: int) -> bool {
    0 <= i && i + sep.len() <= s.len() && s.subrange(i, i + sep.len()) == sep
}

/// The first position at or after `from` where `sep` stands in `s`; -1
/// where there is none.
pub open spec fn first_match(s: Seq<char>, sep: Seq<char>, from: int) -> int
    decreases s.len() - from,
{
    if from < 0 || from + sep.len() > s.len() {
        -1
    } else if occurs_at(s, sep, from) {
        from
    } else if from >= s.len() {
        -1
    } else {
        first_match(s, sep, from + 1)
    }
}

/// A match lies at or after the position the search began at.
pub proof fn lemma_first_match(s: Seq<char>, sep: Seq<char>, from: int)
    ensures
        first_match(s, sep, from) == -1 || (from <= first_match(s, sep, from) && first_match(
            s,
            sep,
            from,
        ) + sep.len() <= s.len()),
    decreases s.len() - from,
{
    if !(from < 0 || from + sep.len() > s.len()) && !occurs_at(s, sep, from) && from < s.len() {
        lemma_first_match(s, sep, from + 1);
    }
}

/// The pieces of `s[from..]` between the places where the separator
/// `sep`, which is not empty, stands: each place is the first one after
/// the place before it.
pub open spec fn split_from(s: Seq<char>, sep: Seq<char>, from: int) -> Seq<Seq<char>>
    decreases s.len() - from,
{
    if sep.len() == 0 || from < 0 || from > s.len() {
        Seq::empty()
    } else {
        let i = first_match(s, sep, from);
        proof {
            lemma_first_match(s, sep, from);
        }
        if i < 0 {
            seq![s.subrange(from, s.len() as int)]
        } else {
            seq![s.subrange(from, i)] + split_from(s, sep, i + sep.len())
        }
    }
}

/// The pieces of `s` between the places where `sep` stands. The empty
/// separator stands before and after every character: it gives each
/// character by itself, with an empty piece before the first and after
/// the last.
pub open spec fn split_text(s: Seq<char>, sep: Seq<char>) -> Seq<Seq<char>> {
    if sep.len() == 0 {
        seq![Seq::<char>::empty()] + Seq::new(s.len(), |i: int| seq![s[i]]) + seq![
            Seq::<char>::empty(),
        ]
    } else {
        split_from(s, sep, 0)
    }
}

/// The first position at or after `from` that holds a line feed; the
/// length of `s` where there is none.
pub open spec fn line_end(s: Seq<char>, from: int) -> int
    decreases s.len() - from,
{
    if from < 0 || from >= s.len() {
        s.len() as int
    } else if s[from] == '\n' {
        from
    } else {
        line_end(s, from + 1)
    }
}

/// The end of a line lies at or after its start, and inside the text.
pub proof fn lemma_line_end(s: Seq<char>, from: int)
    requires
        0 <= from <= s.len(),
    ensures
        from <= line_end(s, from) <= s.len(),
    decreases s.len() - from,
{
    if from < s.len() && s[from] != '\n' {
        lemma_line_end(s, from + 1);
    }
}

/// The lines of `s[from..]`: a line ends with a line feed, or with a
/// carriage return and a line feed, which do not belong to it; the last
/// line may end with the text.
pub open spec fn lines_from(s: Seq<char>, from: int) -> Seq<Seq<char>>
    decreases s.len() - from,
{
    if from < 0 || from >= s.len() {
        Seq::empty()
    } else {
        let e = line_end(s, from);
        proof {
            lemma_line_end(s, from);
        }
        if e >= s.len() {
            seq![s.subrange(from, s.len() as int)]
        } else {
            let stop = if e > from && s[e - 1] == '\r' {
                e - 1
            } else {
                e
            };
            seq![s.subrange(from, stop)] + lines_from(s, e + 1)
        }
    }
}

/// What `str-split` gives: the pieces of a string between the places of
/// a separator.
pub open spec fn split_spec(args: Seq<ValueV>) -> Result<ValueV, ErrorV> {
    if args.len() != 2 {
        Err(arity_error(2, args.len()))
    } else {
        match (args[0], args[1]) {
            (ValueV::String(s), ValueV::String(sep)) => Ok(
                ValueV::List(strings_value(split_text(s, sep))),
            ),
            (ValueV::String(_), _) => Err(ErrorV::VarEval(msg_one("str-split"@, args[1]))),
            _ => Err(ErrorV::VarEval(msg_one("str-split"@, args[0]))),
        }
    }
}

/// What `str-lines` gives: the lines of a string.
pub open spec fn lines_spec(args: Seq<ValueV>) -> Result<ValueV, ErrorV> {
    if args.len() != 1 {
        Err(arity_error(1, args.len()))
    } else {
        match args[0] {
            ValueV::String(s) => Ok(ValueV::List(strings_value(lines_from(s, 0)))),
            _ => Err(ErrorV::VarEval(msg_one("str-lines"@, args[0]))),
        }
    }
}

/// The strings `args[from..]` behind `acc`, one after the other; the
/// first operand that is no string fails.
pub open spec fn concat_from(args: Seq<ValueV>, from: int, acc: Seq<char>) -> Result<
    ValueV,
    ErrorV,
>
    decreases args.len() - from,
{
    if from < 0 || from >= args.len() {
        Ok(ValueV::String(acc))
    } else {
        match args[from] {
            ValueV::String(s) => concat_from(args, from + 1, acc + s),
            _ => Err(ErrorV::VarEval(msg_one("str-concat"@, args[from]))),
        }
    }
}

/// What `str-concat` gives: its string operands, one after the other.
pub open spec fn concat_spec(args: Seq<ValueV>) -> Result<ValueV, ErrorV> {
    concat_from(args, 0, Seq::empty())
}

/// The strings `items[from..]` behind `acc`, with `sep` between each
/// two; the first item that is no string fails.
pub open spec fn join_from(items: Seq<ValueV>, sep: Seq<char>, from: int, acc: Seq<char>) -> Result<
    ValueV,
    ErrorV,
>
    decreases items.len() - from,
{
    if from < 0 || from >= items.len() {
        Ok(ValueV::String(acc))
    } else {
        match items[from] {
            ValueV::String(s) => join_from(
                items,
                sep,
                from + 1,
                if from == 0 {
                    s
                } else {
                    acc + sep + s
                },
            ),
            _ => Err(ErrorV::VarEval(msg_one("str-join"@, items[from]))),
        }
    }
}

/// What `str-join` gives: the strings of a list with a separator between
/// each two.
pub open spec fn join_spec(args: Seq<ValueV>) -> Result<ValueV, ErrorV> {
    if args.len() != 2 {
        Err(arity_error(2, args.len()))
    } else {
        match (args[0], args[1]) {
            (ValueV::String(sep), ValueV::List(items)) => join_from(items, sep, 0, Seq::empty()),
            (ValueV::String(_), _) => Err(ErrorV::VarEval(msg_one("str-join"@, args[1]))),
            _ => Err(ErrorV::VarEval(msg_one("str-join"@, args[0]))),
        }
    }
}

/// The plain texts of the values.
pub open spec fn plain_texts(args: Seq<ValueV>) -> Seq<Seq<char>> {
    Seq::new(args.len(), |i: int| value_text(args[i], true))
}

/// What `to-string` gives: the plain text of one operand, or the list of
/// the plain texts of any other number of them.
pub open spec fn to_string_spec(args: Seq<ValueV>) -> Result<ValueV, ErrorV> {
    Ok(one_or_list(plain_texts(args)))
}

/// Tests whether `sep` stands in `s` at `i`.
fn matches_at(s: &Vec<char>, sep: &Vec<char>, i: usize) -> (r: bool)
    requires
        i + sep.len() <= s.len(),
    ensures
        r == occurs_at(s@, sep@, i as int),
{
    let mut k: usize = 0;
    while k < sep.len()
        invariant
            k <= sep.len(),
            i + sep.len() <= s.len(),
            forall|j: int| 0 <= j < k ==> s[i + j] == sep[j],
        decreases sep.len() - k,
    {
        if s[i + k] != sep[k] {
            assert(s@.subrange(i as int, i + sep.len())[k as int] != sep@[k as int]);
            return false;
        }
        k += 1;
    }
    assert(s@.subrange(i as int, i + sep.len()) =~= sep@);
    true
}

/// The first place at or after `from` where `sep` stands in `s`.
fn find(s: &Vec<char>, sep: &Vec<char>, from: usize) -> (r: Option<usize>)
    requires
        from <= s.len(),
    ensures
        match r {
            Some(i) => first_match(s@, sep@, from as int) == i && from <= i && i + sep.len()
                <= s.len(),
            None => first_match(s@, sep@, from as int) == -1,
        },
{
    if sep.len() > s.len() {
        return None;
    }
    let last = s.len() - sep.len();
    if from > last {
        return None;
    }
    let mut i: usize = from;
    loop
        invariant
            from <= i <= last,
            last == s.len() - sep.len(),
            first_match(s@, sep@, from as int) == first_match(s@, sep@, i as int),
        decreases last - i,
    {
        if matches_at(s, sep, i) {
            return Some(i);
        }
        if i == last {
            assert(first_match(s@, sep@, i + 1) == -1);
            return None;
        }
        i += 1;
    }
}

/// The pieces of `s` between the places where `sep` stands.
pub fn split(s: &str, sep: &str) -> (r: Vec<String>)
    ensures
        names_view(r@) == split_text(s@, sep@),
{
    let sv = chars_of(s);
    let pv = chars_of(sep);
    let mut out: Vec<String> = Vec::new();
    if pv.len() == 0 {
        out.push(String::new());
        let mut i: usize = 0;
        while i < sv.len()
            invariant
                i <= sv.len(),
                out.len() == i + 1,
                out[0]@ == Seq::<char>::empty(),
                forall|j: int| 0 <= j < i ==> out[j + 1]@ == seq![sv[j]],
            decreases sv.len() - i,
        {
            let piece = string_of_range(&sv, i, i + 1);
            assert(piece@ =~= seq![sv[i as int]]);
            out.push(piece);
            i += 1;
        }
        out.push(String::new());
        assert(names_view(out@) =~= split_text(s@, sep@));
        return out;
    }
    let mut from: usize = 0;
    assert(names_view(out@) =~= Seq::empty());
    loop
        invariant
            from <= sv.len(),
            pv.len() > 0,
            sv@ == s@,
            pv@ == sep@,
            split_text(s@, sep@) == names_view(out@) + split_from(sv@, pv@, from as int),
        decreases sv.len() - from,
    {
        let ghost before = names_view(out@);
        match find(&sv, &pv, from) {
            None => {
                let piece = string_of_range(&sv, from, sv.len());
                out.push(piece);
                assert(names_view(out@) =~= before + split_from(sv@, pv@, from as int));
                return out;
            },
            Some(i) => {
                let piece = string_of_range(&sv, from, i);
                out.push(piece);
                assert(names_view(out@) =~= before + seq![piece@]);
                assert(before + (seq![piece@] + split_from(sv@, pv@, i + pv.len())) =~= (before
                    + seq![piece@]) + split_from(sv@, pv@, i + pv.len()));
                from = i + pv.len();
            },
        }
    }
}

/// The lines of `s`.
pub fn lines(s: &str) -> (r: Vec<String>)
    ensures
        names_view(r@) == lines_from(s@, 0),
{
    let sv = chars_of(s);
    let mut out: Vec<String> = Vec::new();
    let mut from: usize = 0;
    assert(names_view(out@) =~= Seq::empty());
    while from < sv.len()
        invariant
            from <= sv.len(),
            sv@ == s@,
            lines_from(s@, 0) == names_view(out@) + lines_from(sv@, from as int),
        decreases sv.len() - from,
    {
        let ghost before = names_view(out@);
        let mut e: usize = from;
        while e < sv.len() && sv[e] != '\n'
            invariant
                from <= e <= sv.len(),
                line_end(sv@, from as int) == line_end(sv@, e as int),
            decreases sv.len() - e,
        {
            e += 1;
        }
        if e >= sv.len() {
            let piece = string_of_range(&sv, from, sv.len());
            out.push(piece);
            assert(names_view(out@) =~= before + lines_from(sv@, from as int));
            from = sv.len();
        } else {
            let stop: usize = if e > from && sv[e - 1] == '\r' {
                e - 1
            } else {
                e
            };
            let piece = string_of_range(&sv, from, stop);
            out.push(piece);
            assert(names_view(out@) =~= before + seq![piece@]);
            assert(before + (seq![piece@] + lines_from(sv@, e + 1)) =~= (before + seq![piece@])
                + lines_from(sv@, e + 1));
            from = e + 1;
        }
    }
    assert(names_view(out@) + Seq::<Seq<char>>::empty() =~= names_view(out@));
    out
}

/// `str-split`: the pieces of a string between the places of a separator.
pub struct Split;

impl Split {
    /// Applies the operation to `args`.
    pub fn eval(&self, _env: &Environment, args: Vec<Value>) -> (r: Result<Value, Error>)
        ensures
            result_view(r) == split_spec(values_view(args@)),
    {
        proof {
            lemma_values_view(args@);
        }
        if args.len() != 2 {
            return Err(wrong_count(2, args.len()));
        }
        let string = match args[0].require_str("str-split") {
            Ok(s) => s,
            Err(e) => {
                return Err(e);
            },
        };
        let sep = match args[1].require_str("str-split") {
            Ok(s) => s,
            Err(e) => {
                return Err(e);
            },
        };
        Ok(list_of_strings(split(string, sep)))
    }
}

/// `str-lines`: the lines of a string.
pub struct Lines;

impl Lines {
    /// Applies the operation to `args`.
    pub fn eval(&self, _env: &Environment, args: Vec<Value>) -> (r: Result<Value, Error>)
        ensures
            result_view(r) == lines_spec(values_view(args@)),
    {
        proof {
            lemma_values_view(args@);
        }
        if args.len() != 1 {
            return Err(wrong_count(1, args.len()));
        }
        let string = match args[0].require_str("str-lines") {
            Ok(s) => s,
            Err(e) => {
                return Err(e);
            },
        };
        Ok(list_of_strings(lines(string)))
    }
}

/// `to-string`: the plain text of every kind of value.
pub struct ToString;

impl ToString {
    /// The plain text of `value`. Every kind of value has one.
    pub fn value_to_string(value: &Value) -> (r: Result<String, Error>)
        ensures
            r is Ok,
            r->Ok_0@ == value_text(value@, true),
    {
        let mut out = String::new();
        value.render(true, &mut out);
        assert(out@ =~= value_text(value@, true));
        Ok(out)
    }

    /// Applies the operation to `args`.
    pub fn eval(&self, _env: &Environment, args: Vec<Value>) -> (r: Result<Value, Error>)
        ensures
            result_view(r) == to_string_spec(values_view(args@)),
    {
        proof {
            lemma_values_view(args@);
        }
        let mut texts: Vec<String> = Vec::new();
        let mut i: usize = 0;
        while i < args.len()
            invariant
                i <= args.len(),
                texts.len() == i,
                forall|j: int| 0 <= j < i ==> texts[j]@ == value_text(args[j]@, true),
            decreases args.len() - i,
        {
            match ToString::value_to_string(&args[i]) {
                Ok(t) => {
                    texts.push(t);
                },
                Err(e) => {
                    return Err(e);
                },
            }
            i += 1;
        }
        assert(names_view(texts@) =~= plain_texts(values_view(args@)));
        Ok(strings_to_value(texts))
    }
}

/// `str-concat`: strings, one after the other.
pub struct Concat;

impl Concat {
    /// Applies the operation to `args`.
    pub fn eval(&self, _env: &Environment, args: Vec<Value>) -> (r: Result<Value, Error>)
        ensures
            result_view(r) == concat_spec(values_view(args@)),
    {
        proof {
            lemma_values_view(args@);
        }
        let ghost av = values_view(args@);
        let mut result = String::new();
        let mut i: usize = 0;
        while i < args.len()
            invariant
                i <= args.len(),
                av == values_view(args@),
                av.len() == args.len(),
                forall|j: int| 0 <= j < args.len() ==> av[j] == args[j]@,
                concat_spec(av) == concat_from(av, i as int, result@),
            decreases args.len() - i,
        {
            match args[i].require_str("str-concat") {
                Ok(s) => {
                    result.append(s);
                },
                Err(e) => {
                    return Err(e);
                },
            }
            i += 1;
        }
        Ok(Value::String(result))
    }
}

/// `str-join`: the strings of a list with a separator between each two.
pub struct Join;

impl Join {
    /// Applies the operation to `args`.
    pub fn eval(&self, _env: &Environment, args: Vec<Value>) -> (r: Result<Value, Error>)
        ensures
            result_view(r) == join_spec(values_view(args@)),
    {
        proof {
            lemma_values_view(args@);
        }
        if args.len() != 2 {
            return Err(wrong_count(2, args.len()));
        }
        let sep = match args[0].require_str("str-join") {
            Ok(s) => s,
            Err(e) => {
                return Err(e);
            },
        };
        let list = match args[1].require_list("str-join") {
            Ok(l) => l,
            Err(e) => {
                return Err(e);
            },
        };
        proof {
            lemma_values_view(list@);
        }
        let ghost lv = values_view(list@);
        let mut result = String::new();
        let mut i: usize = 0;
        while i < list.len()
            invariant
                i <= list.len(),
                lv == values_view(list@),
                lv.len() == list.len(),
                forall|j: int| 0 <= j < list.len() ==> lv[j] == list[j]@,
                i == 0 ==> result@ == Seq::<char>::empty(),
                join_spec(values_view(args@)) == join_from(lv, sep@, 0, Seq::empty()),
                join_from(lv, sep@, 0, Seq::empty()) == join_from(lv, sep@, i as int, result@),
            decreases list.len() - i,
        {
            match list[i].require_str("str-join") {
                Ok(s) => {
                    if i > 0 {
                        result.append(sep);
                    }
                    result.append(s);
                    assert(i == 0 ==> result@ =~= s@);
                },
                Err(e) => {
                    return Err(e);
                },
            }
            i += 1;
        }
        Ok(Value::String(result))
    }
}

} // verus!
