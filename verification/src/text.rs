//! Characters and text: the character classes of the script syntax, the
//! conversions between strings and character vectors, and decimal integers.

use vstd::prelude::*;

verus! {

/// `String::push` appends one character to the end of the string.
pub assume_specification[ std::string::String::push ](s: &mut std::string::String, c: char)
    ensures
        final(s)@ == old(s)@.push(c),
;

/// `str == str` holds exactly when both slices hold the same characters.
pub assume_specification[ <str as PartialEq>::eq ](a: &str, b: &str) -> (r: bool)
    ensures
        r == (a@ == b@),
;

/// The characters with the Unicode property `White_Space`.
pub open spec fn is_whitespace(c: char) -> bool {
    ||| c == ' '
    ||| '\t' <= c <= '\r'
    ||| c == '\u{85}'
    ||| c == '\u{a0}'
    ||| c == '\u{1680}'
    ||| '\u{2000}' <= c <= '\u{200a}'
    ||| c == '\u{2028}'
    ||| c == '\u{2029}'
    ||| c == '\u{202f}'
    ||| c == '\u{205f}'
    ||| c == '\u{3000}'
}

/// The ASCII control characters: U+0000 to U+001F, and U+007F.
pub open spec fn is_ascii_control(c: char) -> bool {
    c <= '\u{1f}' || c == '\u{7f}'
}

/// The ASCII decimal digits.
pub open spec fn is_digit(c: char) -> bool {
    '0' <= c <= '9'
}

/// The ASCII letters and digits.
pub open spec fn is_ascii_alphanumeric(c: char) -> bool {
    is_digit(c) || 'a' <= c <= 'z' || 'A' <= c <= 'Z'
}

/// The ASCII punctuation characters.
pub open spec fn is_ascii_punctuation(c: char) -> bool {
    '!' <= c <= '/' || ':' <= c <= '@' || '[' <= c <= '`' || '{' <= c <= '~'
}

/// The characters a symbol is made of: ASCII letters, digits and
/// punctuation, without the parentheses and the double quote.
pub open spec fn is_symbol_char(c: char) -> bool {
    (is_ascii_alphanumeric(c) || is_ascii_punctuation(c)) && c != '(' && c != ')' && c != '"'
}

/// Tests whether `c` is whitespace.
pub fn whitespace(c: char) -> (r: bool)
    ensures
        r == is_whitespace(c),
{
    c == ' ' || ('\t' <= c && c <= '\r') || c == '\u{85}' || c == '\u{a0}' || c == '\u{1680}'
        || ('\u{2000}' <= c && c <= '\u{200a}') || c == '\u{2028}' || c == '\u{2029}'
        || c == '\u{202f}' || c == '\u{205f}' || c == '\u{3000}'
}

/// Tests whether `c` is an ASCII control character.
pub fn ascii_control(c: char) -> (r: bool)
    ensures
        r == is_ascii_control(c),
{
    c <= '\u{1f}' || c == '\u{7f}'
}

/// Tests whether `c` is a decimal digit.
pub fn digit(c: char) -> (r: bool)
    ensures
        r == is_digit(c),
{
    '0' <= c && c <= '9'
}

/// The characters of a string slice, in order.
pub fn chars_of(s: &str) -> (v: Vec<char>)
    ensures
        v@ == s@,
{
    let mut v: Vec<char> = Vec::new();
    for c in it: s.chars()
        invariant
            v@ == it.seq().take(it.index() as int),
            it.seq() == s@,
    {
        v.push(c);
    }
    v
}

/// The string made of the characters `v[from..to]`.
pub(crate) fn string_of_range(v: &Vec<char>, from: usize, to: usize) -> (s: String)
    requires
        from <= to <= v.len(),
    ensures
        s@ == v@.subrange(from as int, to as int),
{
    let mut s = String::new();
    let mut i: usize = from;
    while i < to
        invariant
            from <= i <= to <= v.len(),
            s@ == v@.subrange(from as int, i as int),
        decreases to - i,
    {
        s.push(v[i]);
        i += 1;
    }
    s
}

/// The string made of the characters of `v`.
pub fn string_of(v: &Vec<char>) -> (s: String)
    ensures
        s@ == v@,
{
    let s = string_of_range(v, 0, v.len());
    assert(v@.subrange(0, v.len() as int) == v@);
    s
}

/// Appends the characters of `v` to `s`.
pub fn push_chars(s: &mut String, v: &Vec<char>)
    ensures
        final(s)@ == old(s)@ + v@,
{
    let mut i: usize = 0;
    while i < v.len()
        invariant
            i <= v.len(),
            s@ == old(s)@ + v@.take(i as int),
        decreases v.len() - i,
    {
        s.push(v[i]);
        i += 1;
    }
    assert(v@.take(v.len() as int) == v@);
}

/// Whether two strings hold the same characters.
pub fn same_text(a: &String, b: &String) -> (r: bool)
    ensures
        r == (a@ == b@),
{
    a.as_str().eq(b.as_str())
}

/// The two texts, one after the other.
pub fn concat2(a: &str, b: &str) -> (s: String)
    ensures
        s@ == a@ + b@,
{
    let mut s = String::from_str(a);
    s.append(b);
    s
}

/// Whether every character of `s` is a decimal digit.
pub open spec fn all_digits(s: Seq<char>) -> bool {
    forall|i: int| 0 <= i < s.len() ==> is_digit(#[trigger] s[i])
}

/// The number a decimal digit stands for.
pub open spec fn digit_value(c: char) -> int {
    c as int - '0' as int
}

/// The decimal digit that stands for `d`, for `d` below ten.
pub open spec fn digit_char(d: int) -> char {
    if d == 0 {
        '0'
    } else if d == 1 {
        '1'
    } else if d == 2 {
        '2'
    } else if d == 3 {
        '3'
    } else if d == 4 {
        '4'
    } else if d == 5 {
        '5'
    } else if d == 6 {
        '6'
    } else if d == 7 {
        '7'
    } else if d == 8 {
        '8'
    } else {
        '9'
    }
}

/// The number that a sequence of decimal digits denotes.
pub open spec fn digits_value(s: Seq<char>) -> int
    decreases s.len(),
{
    if s.len() == 0 {
        0
    } else {
        digits_value(s.drop_last()) * 10 + digit_value(s.last())
    }
}

/// The integer that `s` denotes: an optional sign, `+` or `-`, and then one
/// decimal digit or more. `None` where `s` has another shape.
pub open spec fn int_of_text(s: Seq<char>) -> Option<int> {
    if s.len() > 0 && (s[0] == '+' || s[0] == '-') {
        let d = s.subrange(1, s.len() as int);
        if d.len() > 0 && all_digits(d) {
            Some(
                if s[0] == '-' {
                    -digits_value(d)
                } else {
                    digits_value(d)
                },
            )
        } else {
            None
        }
    } else if s.len() > 0 && all_digits(s) {
        Some(digits_value(s))
    } else {
        None
    }
}

/// The machine integer that `s` denotes: `int_of_text`, where the number
/// fits the machine word.
pub open spec fn isize_of_text(s: Seq<char>) -> Option<isize> {
    match int_of_text(s) {
        Some(v) => if isize::MIN <= v <= isize::MAX {
            Some(v as isize)
        } else {
            None
        },
        None => None,
    }
}

/// A sequence of digits denotes at least what each of its prefixes denotes,
/// and nothing negative.
pub proof fn lemma_digits_prefix(s: Seq<char>, k: int)
    requires
        all_digits(s),
        0 <= k <= s.len(),
    ensures
        0 <= digits_value(s.take(k)) <= digits_value(s),
    decreases s.len(),
{
    if s.len() == 0 {
        assert(s.take(k) == s);
    } else if k == s.len() {
        assert(s.take(k) == s);
        lemma_digits_prefix(s.drop_last(), k - 1);
    } else {
        lemma_digits_prefix(s.drop_last(), k);
        assert(s.drop_last().take(k) == s.take(k));
        lemma_digits_prefix(s.drop_last(), s.len() - 1);
        assert(s.drop_last().take(s.len() - 1) == s.drop_last());
    }
}

/// Reads a decimal integer: an optional sign and then digits only. Fails
/// on any other text, and on a number outside the machine word.
pub fn parse_int(s: &Vec<char>) -> (r: Option<isize>)
    ensures
        r == isize_of_text(s@),
{
    let n = s.len();
    if n == 0 {
        return None;
    }
    let negative = s[0] == '-';
    let start: usize = if s[0] == '-' || s[0] == '+' {
        1
    } else {
        0
    };
    if start == n {
        return None;
    }
    let ghost d = s@.subrange(start as int, n as int);
    assert(d.len() > 0);
    assert(start == 0 ==> d == s@);
    // The digits read so far, negated: the negative range is the larger one.
    let mut acc: isize = 0;
    let mut i: usize = start;
    while i < n
        invariant
            start <= i <= n,
            n == s.len(),
            d == s@.subrange(start as int, n as int),
            start == 1 <==> (s@[0] == '+' || s@[0] == '-'),
            start == 0 || start == 1,
            all_digits(d.take(i - start)),
            acc == -digits_value(d.take(i - start)),
            acc <= 0,
        decreases n - i,
    {
        let c = s[i];
        assert(c == d[i - start]);
        if !digit(c) {
            assert(!is_digit(d[i - start]));
            return None;
        }
        let ghost next = d.take(i - start + 1);
        assert(next.drop_last() == d.take(i - start));
        assert(next.last() == c);
        assert(all_digits(next)) by {
            assert forall|j: int| 0 <= j < next.len() implies is_digit(#[trigger] next[j]) by {
                if j < next.len() - 1 {
                    assert(next[j] == d.take(i - start)[j]);
                }
            }
        }
        let v: isize = (c as u32 - '0' as u32) as isize;
        assert(v == digit_value(c));
        assert(digits_value(next) == digits_value(next.drop_last()) * 10 + digit_value(next.last()));
        let step = match acc.checked_mul(10) {
            Some(t) => t.checked_sub(v),
            None => None,
        };
        match step {
            Some(t) => {
                acc = t;
            },
            None => {
                proof {
                    assert(digits_value(next) > -(isize::MIN as int));
                    if all_digits(d) {
                        lemma_digits_prefix(d, i - start + 1);
                    }
                    if start == 0 {
                        assert(d == s@);
                    }
                }
                return None;
            },
        }
        i += 1;
    }
    assert(d.take(n - start) == d);
    if negative {
        Some(acc)
    } else if acc == isize::MIN {
        None
    } else {
        Some(-acc)
    }
}

/// The decimal digits of a natural number, without leading zeros.
pub open spec fn nat_text(n: nat) -> Seq<char>
    decreases n,
{
    if n < 10 {
        seq![digit_char(n as int)]
    } else {
        nat_text(n / 10).push(digit_char((n % 10) as int))
    }
}

/// The decimal text of an integer: a `-` before a negative one.
pub open spec fn int_text(i: int) -> Seq<char> {
    if i < 0 {
        seq!['-'] + nat_text((-i) as nat)
    } else {
        nat_text(i as nat)
    }
}

/// The digits of a number are digits, and denote that number.
pub proof fn lemma_nat_text(n: nat)
    ensures
        nat_text(n).len() > 0,
        all_digits(nat_text(n)),
        digits_value(nat_text(n)) == n,
    decreases n,
{
    if n < 10 {
        let s = nat_text(n);
        assert(s.drop_last().len() == 0);
        assert(digits_value(s) == digits_value(s.drop_last()) * 10 + digit_value(s.last()));
    } else {
        lemma_nat_text(n / 10);
        let p = nat_text(n / 10);
        let s = nat_text(n);
        assert(s.drop_last() == p);
        assert(s.last() == digit_char((n % 10) as int));
        assert forall|j: int| 0 <= j < s.len() implies is_digit(#[trigger] s[j]) by {
            if j < s.len() - 1 {
                assert(s[j] == p[j]);
            }
        }
    }
}

/// Reading the decimal text of an integer gives that integer back.
pub proof fn law_int_text_round_trip(i: int)
    ensures
        int_of_text(int_text(i)) == Some(i),
{
    if i < 0 {
        let n = (-i) as nat;
        lemma_nat_text(n);
        let s = int_text(i);
        assert(s.subrange(1, s.len() as int) == nat_text(n));
    } else {
        lemma_nat_text(i as nat);
        let s = nat_text(i as nat);
        assert(is_digit(s[0]));
    }
}

/// The decimal digits of `m`.
pub fn nat_chars(m: usize) -> (v: Vec<char>)
    ensures
        v@ == nat_text(m as nat),
    decreases m,
{
    if m < 10 {
        let c = digit_of((m % 10) as u8);
        let mut v: Vec<char> = Vec::new();
        v.push(c);
        assert(v@ == seq![digit_char(m as int)]);
        v
    } else {
        let mut v = nat_chars(m / 10);
        v.push(digit_of((m % 10) as u8));
        v
    }
}

/// The decimal digit for `d`.
fn digit_of(d: u8) -> (c: char)
    requires
        d < 10,
    ensures
        c == digit_char(d as int),
{
    if d == 0 {
        '0'
    } else if d == 1 {
        '1'
    } else if d == 2 {
        '2'
    } else if d == 3 {
        '3'
    } else if d == 4 {
        '4'
    } else if d == 5 {
        '5'
    } else if d == 6 {
        '6'
    } else if d == 7 {
        '7'
    } else if d == 8 {
        '8'
    } else {
        '9'
    }
}

/// The decimal text of a machine integer.
pub fn int_chars(i: isize) -> (v: Vec<char>)
    ensures
        v@ == int_text(i as int),
{
    if i >= 0 {
        nat_chars(i as usize)
    } else {
        let m: usize = if i == isize::MIN {
            (isize::MAX as usize) + 1
        } else {
            (-i) as usize
        };
        let mut v: Vec<char> = Vec::new();
        v.push('-');
        let mut d = nat_chars(m);
        v.append(&mut d);
        v
    }
}

/// Whether `c` is the letter `lower` in either case, `upper` being its
/// capital.
pub open spec fn is_letter(c: char, lower: char, upper: char) -> bool {
    c == lower || c == upper
}

/// Whether `s[start..]` is one of the words `inf`, `infinity` and `nan`,
/// in any mix of cases.
pub open spec fn is_inf_nan(s: Seq<char>, start: int) -> bool {
    ||| s.len() - start == 3 && is_letter(s[start], 'i', 'I') && is_letter(s[start + 1], 'n', 'N')
        && is_letter(s[start + 2], 'f', 'F')
    ||| s.len() - start == 3 && is_letter(s[start], 'n', 'N') && is_letter(s[start + 1], 'a', 'A')
        && is_letter(s[start + 2], 'n', 'N')
    ||| s.len() - start == 8 && is_letter(s[start], 'i', 'I') && is_letter(s[start + 1], 'n', 'N')
        && is_letter(s[start + 2], 'f', 'F') && is_letter(s[start + 3], 'i', 'I') && is_letter(
        s[start + 4],
        'n',
        'N',
    ) && is_letter(s[start + 5], 'i', 'I') && is_letter(s[start + 6], 't', 'T') && is_letter(
        s[start + 7],
        'y',
        'Y',
    )
}

/// The first position at or after `from` that holds no digit.
pub open spec fn digits_end(s: Seq<char>, from: int) -> int
    decreases s.len() - from,
{
    if 0 <= from < s.len() && is_digit(s[from]) {
        digits_end(s, from + 1)
    } else {
        from
    }
}

/// Whether `s[from..]` is an exponent: `e` or `E`, an optional sign, and
/// then digits up to the end.
pub open spec fn is_exponent(s: Seq<char>, from: int) -> bool {
    &&& 0 <= from < s.len()
    &&& is_letter(s[from], 'e', 'E')
    &&& {
        let d = if from + 1 < s.len() && (s[from + 1] == '+' || s[from + 1] == '-') {
            from + 2
        } else {
            from + 1
        };
        d < s.len() && digits_end(s, d) == s.len()
    }
}

/// Whether `s[start..]` is a decimal number: digits with at most one
/// point among them, at least one digit in all, and then an exponent or
/// nothing.
pub open spec fn is_number(s: Seq<char>, start: int) -> bool {
    let a = digits_end(s, start);
    let point = a < s.len() && s[a] == '.';
    let b = if point {
        digits_end(s, a + 1)
    } else {
        a
    };
    let count = if point {
        b - start - 1
    } else {
        b - start
    };
    count > 0 && (b == s.len() || is_exponent(s, b))
}

/// Whether `s` is written as a floating-point number: an optional sign,
/// and then a decimal number or one of the words `inf`, `infinity` and
/// `nan`.
pub open spec fn is_float_text(s: Seq<char>) -> bool {
    let start: int = if s.len() > 0 && (s[0] == '+' || s[0] == '-') {
        1
    } else {
        0
    };
    is_inf_nan(s, start) || is_number(s, start)
}

fn letter(c: char, lower: char, upper: char) -> (r: bool)
    ensures
        r == is_letter(c, lower, upper),
{
    c == lower || c == upper
}

fn inf_nan(s: &Vec<char>, start: usize) -> (r: bool)
    requires
        start <= s.len(),
    ensures
        r == is_inf_nan(s@, start as int),
{
    let n = s.len() - start;
    if n == 3 {
        (letter(s[start], 'i', 'I') && letter(s[start + 1], 'n', 'N') && letter(
            s[start + 2],
            'f',
            'F',
        )) || (letter(s[start], 'n', 'N') && letter(s[start + 1], 'a', 'A') && letter(
            s[start + 2],
            'n',
            'N',
        ))
    } else if n == 8 {
        letter(s[start], 'i', 'I') && letter(s[start + 1], 'n', 'N') && letter(
            s[start + 2],
            'f',
            'F',
        ) && letter(s[start + 3], 'i', 'I') && letter(s[start + 4], 'n', 'N') && letter(
            s[start + 5],
            'i',
            'I',
        ) && letter(s[start + 6], 't', 'T') && letter(s[start + 7], 'y', 'Y')
    } else {
        false
    }
}

fn skip_digits(s: &Vec<char>, from: usize) -> (r: usize)
    requires
        from <= s.len(),
    ensures
        r == digits_end(s@, from as int),
        from <= r <= s.len(),
{
    let mut i: usize = from;
    while i < s.len() && digit(s[i])
        invariant
            from <= i <= s.len(),
            digits_end(s@, from as int) == digits_end(s@, i as int),
        decreases s.len() - i,
    {
        i += 1;
    }
    i
}

fn exponent(s: &Vec<char>, from: usize) -> (r: bool)
    requires
        from <= s.len(),
    ensures
        r == is_exponent(s@, from as int),
{
    if from >= s.len() || !letter(s[from], 'e', 'E') {
        return false;
    }
    let d: usize = if from + 1 < s.len() && (s[from + 1] == '+' || s[from + 1] == '-') {
        from + 2
    } else {
        from + 1
    };
    d < s.len() && skip_digits(s, d) == s.len()
}

fn number(s: &Vec<char>, start: usize) -> (r: bool)
    requires
        start <= s.len(),
    ensures
        r == is_number(s@, start as int),
{
    let a = skip_digits(s, start);
    let point = a < s.len() && s[a] == '.';
    let b = if point {
        skip_digits(s, a + 1)
    } else {
        a
    };
    let count = if point {
        b - start - 1
    } else {
        b - start
    };
    count > 0 && (b == s.len() || exponent(s, b))
}

/// Tests whether `s` holds a point.
pub fn has_point(s: &Vec<char>) -> (r: bool)
    ensures
        r == s@.contains('.'),
{
    let mut i: usize = 0;
    while i < s.len()
        invariant
            i <= s.len(),
            forall|j: int| 0 <= j < i ==> s[j] != '.',
        decreases s.len() - i,
    {
        if s[i] == '.' {
            return true;
        }
        i += 1;
    }
    false
}

/// Tests whether `s` is written as a floating-point number.
pub fn float_text(s: &Vec<char>) -> (r: bool)
    ensures
        r == is_float_text(s@),
{
    let start: usize = if s.len() > 0 && (s[0] == '+' || s[0] == '-') {
        1
    } else {
        0
    };
    inf_nan(s, start) || number(s, start)
}

/// Whether `c` is a character of a line ending: a line feed or a
/// carriage return.
pub open spec fn is_line_break(c: char) -> bool {
    c == '\n' || c == '\r'
}

/// Where `s` ends once the line ending at its end is taken off.
pub open spec fn line_len(s: Seq<char>) -> int
    decreases s.len(),
{
    if s.len() > 0 && is_line_break(s.last()) {
        line_len(s.drop_last())
    } else {
        s.len() as int
    }
}

/// `s` without the line feeds and carriage returns at its end.
pub open spec fn without_line_end(s: Seq<char>) -> Seq<char> {
    s.take(line_len(s))
}

/// The text without the line feeds and carriage returns at its end.
pub fn strip_line_end(s: &str) -> (r: String)
    ensures
        r@ == without_line_end(s@),
{
    let v = chars_of(s);
    let mut n: usize = v.len();
    assert(v@.take(n as int) == v@);
    while n > 0 && (v[n - 1] == '\n' || v[n - 1] == '\r')
        invariant
            n <= v.len(),
            line_len(v@) == line_len(v@.take(n as int)),
        decreases n,
    {
        assert(v@.take(n as int).drop_last() == v@.take(n - 1));
        n -= 1;
    }
    assert(v@.subrange(0, n as int) == v@.take(n as int));
    string_of_range(&v, 0, n)
}

/// The items of `v` in the opposite order.
pub fn reversed<T>(v: Vec<T>) -> (r: Vec<T>)
    ensures
        r@ == v@.reverse(),
{
    let mut v = v;
    let ghost all = v@;
    let mut out: Vec<T> = Vec::new();
    while v.len() > 0
        invariant
            v.len() + out.len() == all.len(),
            forall|j: int| 0 <= j < v.len() ==> v[j] == all[j],
            forall|j: int| 0 <= j < out.len() ==> out[j] == all[all.len() - 1 - j],
        decreases v.len(),
    {
        let x = v.pop().unwrap();
        out.push(x);
    }
    assert(out@ =~= all.reverse());
    out
}

} // verus!
