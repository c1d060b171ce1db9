//! Laws of reading: the text that a form is rendered as reads back as
//! that form.

use vstd::prelude::*;
use crate::ast::{
    NodeV, classify, escaped, law_parse_of_written, node_text, nodes_text, parse_next, parseable,
    written, written_all,
};
use crate::text::{
    int_text, is_digit, is_symbol_char, is_whitespace, lemma_nat_text, nat_text,
};
use crate::token::{
    Lexed, Lexeme, TokenV, lemma_scan_advances, lex_step, scan, scan_string, scan_symbol, tokens,
    tokens_of,
};
use crate::value::ValueV;
use crate::ErrorV;

verus! {

/// Whether `s` is the text of one bare token: symbol characters only, at
/// least one, and no comment marker at the front.
pub open spec fn is_bare_token(s: Seq<char>) -> bool {
    &&& s.len() > 0
    &&& s[0] != '#'
    &&& forall|i: int| 0 <= i < s.len() ==> is_symbol_char(#[trigger] s[i])
}

/// Whether a node is one that reading a text can give: lists of such
/// nodes, string and integer literals, and symbols and float literals
/// whose text is that of one bare token that stands for them.
pub open spec fn readable(n: NodeV) -> bool
    decreases n,
{
    match n {
        NodeV::List(l) => forall|i: int| 0 <= i < l.len() ==> readable(#[trigger] l[i]),
        NodeV::Symbol(s) => is_bare_token(s) && classify(s) == n,
        NodeV::Float(t) => is_bare_token(t) && classify(t) == n,
        NodeV::Value(ValueV::String(_)) => true,
        NodeV::Value(ValueV::Integer(_)) => true,
        NodeV::Value(_) => false,
    }
}

/// Whether a token ends at `pos` in `text`: the text ends there, or
/// whitespace or a parenthesis stands there.
pub open spec fn ends_token(text: Seq<char>, pos: int) -> bool {
    pos >= text.len() || is_whitespace(text[pos]) || text[pos] == '(' || text[pos] == ')'
}

proof fn lemma_readable_is_parseable(n: NodeV)
    requires
        readable(n),
    ensures
        parseable(n),
    decreases n,
{
    match n {
        NodeV::List(l) => {
            assert forall|i: int| 0 <= i < l.len() implies parseable(#[trigger] l[i]) by {
                lemma_readable_is_parseable(l[i]);
            }
        },
        _ => {},
    }
}

/// The decimal text of an integer is the text of one bare token.
proof fn lemma_int_text_is_bare(i: int)
    ensures
        is_bare_token(int_text(i)),
{
    if i < 0 {
        lemma_nat_text((-i) as nat);
        let d = nat_text((-i) as nat);
        let s = int_text(i);
        assert forall|k: int| 0 <= k < s.len() implies is_symbol_char(#[trigger] s[k]) by {
            if k > 0 {
                assert(s[k] == d[k - 1]);
                assert(is_digit(d[k - 1]));
            }
        }
    } else {
        lemma_nat_text(i as nat);
        let s = int_text(i);
        assert forall|k: int| 0 <= k < s.len() implies is_symbol_char(#[trigger] s[k]) by {
            assert(is_digit(s[k]));
        }
        assert(is_digit(s[0]));
    }
}

/// Escaping goes through a text piece by piece.
proof fn lemma_escaped_concat(a: Seq<char>, b: Seq<char>)
    ensures
        escaped(a + b) == escaped(a) + escaped(b),
    decreases b.len(),
{
    if b.len() == 0 {
        assert(a + b =~= a);
        assert(escaped(a) + escaped(b) =~= escaped(a));
    } else {
        lemma_escaped_concat(a, b.drop_last());
        assert((a + b).drop_last() =~= a + b.drop_last());
        assert((a + b).last() == b.last());
        if b.last() == '"' || b.last() == '\\' {
            assert(escaped(a + b) =~= escaped(a) + escaped(b));
        } else {
            assert(escaped(a + b) =~= escaped(a) + escaped(b));
        }
    }
}

/// The lexer reads the escaped characters of a string literal, up to the
/// closing quote, as the characters of the string.
proof fn lemma_scan_escaped(text: Seq<char>, pos: int, buf: Seq<char>, s: Seq<char>)
    requires
        0 <= pos,
        pos + escaped(s).len() + 1 <= text.len(),
        text.subrange(pos, pos + escaped(s).len() + 1) == escaped(s).push('"'),
    ensures
        scan_string(text, pos, buf) == (Some(buf + s), pos + escaped(s).len() + 1),
    decreases s.len(),
{
    let e = escaped(s);
    let piece = text.subrange(pos, pos + e.len() + 1);
    if s.len() == 0 {
        assert(piece[0] == '"');
        assert(text[pos] == '"');
        assert(buf + s =~= buf);
    } else {
        let c = s[0];
        let rest = s.drop_first();
        assert(s =~= seq![c] + rest);
        lemma_escaped_concat(seq![c], rest);
        let one = escaped(seq![c]);
        assert(seq![c].drop_last() =~= Seq::<char>::empty());
        assert(escaped(seq![c].drop_last()) =~= Seq::<char>::empty());
        let r = escaped(rest);
        assert(e == one + r);
        if c == '"' || c == '\\' {
            assert(one =~= seq!['\\', c]);
            assert(piece[0] == '\\');
            assert(piece[1] == c);
            assert(text[pos] == '\\');
            assert(text[pos + 1] == c);
            assert(text.subrange(pos + 2, pos + 2 + r.len() + 1) =~= r.push('"')) by {
                assert forall|k: int| 0 <= k < r.len() + 1 implies text[pos + 2 + k] == r.push(
                    '"',
                )[k] by {
                    assert(piece[k + 2] == e.push('"')[k + 2]);
                }
            }
            lemma_scan_escaped(text, pos + 2, buf.push(c), rest);
            assert(buf.push(c) + rest =~= buf + s);
        } else {
            assert(one =~= seq![c]);
            assert(piece[0] == c);
            assert(text[pos] == c);
            assert(text.subrange(pos + 1, pos + 1 + r.len() + 1) =~= r.push('"')) by {
                assert forall|k: int| 0 <= k < r.len() + 1 implies text[pos + 1 + k] == r.push(
                    '"',
                )[k] by {
                    assert(piece[k + 1] == e.push('"')[k + 1]);
                }
            }
            lemma_scan_escaped(text, pos + 1, buf.push(c), rest);
            assert(buf.push(c) + rest =~= buf + s);
        }
    }
}

/// What the lexer yields from a place where a token ends is what it
/// yields from there on with nothing kept.
proof fn lemma_tokens_after_symbol(text: Seq<char>, pos: int, buf: Seq<char>, l: Lexed)
    requires
        0 <= pos <= text.len(),
        ends_token(text, pos),
        l == scan_symbol(text, pos, buf),
    ensures
        l.item == Some(Ok::<TokenV, ErrorV>(TokenV::Symbol(buf))),
        0 <= l.pos <= text.len(),
        tokens(text, l.pos, l.pending) == tokens(text, pos, None),
{
    if pos >= text.len() {
    } else if is_whitespace(text[pos]) {
        lemma_scan_advances(text, pos + 1, false);
        assert(scan(text, pos, false) == scan(text, pos + 1, false));
        assert(lex_step(text, pos, None) == lex_step(text, pos + 1, None));
    } else {
        assert(lex_step(text, pos, None).pos == pos + 1);
    }
}

/// The lexer reads a run of symbol characters that ends where a token
/// ends as one symbol.
proof fn lemma_scan_symbol_run(text: Seq<char>, pos: int, buf: Seq<char>, end: int)
    requires
        0 <= pos <= end <= text.len(),
        forall|k: int| pos <= k < end ==> is_symbol_char(#[trigger] text[k]),
        ends_token(text, end),
    ensures
        scan_symbol(text, pos, buf) == scan_symbol(text, end, buf + text.subrange(pos, end)),
    decreases end - pos,
{
    if pos < end {
        assert(is_symbol_char(text[pos]));
        lemma_scan_symbol_run(text, pos + 1, buf.push(text[pos]), end);
        assert(buf.push(text[pos]) + text.subrange(pos + 1, end) =~= buf + text.subrange(
            pos,
            end,
        ));
    } else {
        assert(buf + text.subrange(pos, end) =~= buf);
    }
}

/// The lexer reads the text of one bare token, where a token ends behind
/// it, as that token, and goes on behind it.
proof fn lemma_lex_bare_token(text: Seq<char>, pos: int, s: Seq<char>)
    requires
        is_bare_token(s),
        0 <= pos,
        pos + s.len() <= text.len(),
        text.subrange(pos, pos + s.len()) == s,
        ends_token(text, pos + s.len()),
    ensures
        tokens(text, pos, None) == seq![Ok::<TokenV, ErrorV>(TokenV::Symbol(s))] + tokens(
            text,
            pos + s.len(),
            None,
        ),
{
    let end = pos + s.len();
    assert forall|k: int| pos <= k < end implies is_symbol_char(#[trigger] text[k]) by {
        assert(text[k] == s[k - pos]);
    }
    assert(text[pos] == s[0]);
    assert(is_symbol_char(text[pos]));
    lemma_scan_symbol_run(text, pos + 1, seq![text[pos]], end);
    assert(seq![text[pos]] + text.subrange(pos + 1, end) =~= s);
    let l = scan_symbol(text, end, s);
    lemma_tokens_after_symbol(text, end, s, l);
    assert(scan(text, pos, false) == l);
    assert(lex_step(text, pos, None) == l);
}

/// The lexer reads the text of a readable node, where a token ends
/// behind it, as the tokens that the node is written with, and goes on
/// behind it.
proof fn lemma_lex_node(text: Seq<char>, pos: int, n: NodeV)
    requires
        readable(n),
        0 <= pos,
        pos + node_text(n).len() <= text.len(),
        text.subrange(pos, pos + node_text(n).len()) == node_text(n),
        ends_token(text, pos + node_text(n).len()),
    ensures
        tokens(text, pos, None) == written(n) + tokens(text, pos + node_text(n).len(), None),
    decreases n, 0nat,
{
    let t = node_text(n);
    let end = pos + t.len();
    let piece = text.subrange(pos, end);
    match n {
        NodeV::List(l) => {
            let inner = nodes_text(l, l.len());
            assert(t == seq!['('] + inner + seq![')']);
            assert(piece[0] == '(');
            assert(text[pos] == '(');
            assert(piece[t.len() - 1] == ')');
            assert(text[end - 1] == ')');
            assert(text.subrange(pos + 1, pos + 1 + inner.len()) =~= inner) by {
                assert forall|k: int| 0 <= k < inner.len() implies text[pos + 1 + k]
                    == inner[k] by {
                    assert(piece[k + 1] == t[k + 1]);
                }
            }
            lemma_lex_nodes(text, pos + 1, l, l.len());
            let open = seq![Ok::<TokenV, ErrorV>(TokenV::ListStart)];
            let close = seq![Ok::<TokenV, ErrorV>(TokenV::ListEnd)];
            lemma_scan_advances(text, pos, false);
            assert(tokens(text, pos, None) == open + tokens(text, pos + 1, None));
            assert(tokens(text, end - 1, None) == close + tokens(text, end, None));
            assert(open + (written_all(l, l.len()) + (close + tokens(text, end, None))) =~= (open
                + written_all(l, l.len()) + close) + tokens(text, end, None));
        },
        NodeV::Symbol(s) => {
            lemma_lex_bare_token(text, pos, s);
        },
        NodeV::Float(s) => {
            lemma_lex_bare_token(text, pos, s);
        },
        NodeV::Value(ValueV::Integer(i)) => {
            lemma_int_text_is_bare(i as int);
            lemma_lex_bare_token(text, pos, int_text(i as int));
        },
        NodeV::Value(ValueV::String(s)) => {
            let e = escaped(s);
            assert(t == seq!['"'] + e + seq!['"']);
            assert(piece[0] == '"');
            assert(text[pos] == '"');
            assert(text.subrange(pos + 1, pos + 1 + e.len() + 1) =~= e.push('"')) by {
                assert forall|k: int| 0 <= k < e.len() + 1 implies text[pos + 1 + k] == e.push(
                    '"',
                )[k] by {
                    assert(piece[k + 1] == t[k + 1]);
                }
            }
            lemma_scan_escaped(text, pos + 1, Seq::empty(), s);
            assert(Seq::<char>::empty() + s =~= s);
            assert(scan(text, pos, false) == Lexed {
                item: Some(Ok::<TokenV, ErrorV>(TokenV::String(s))),
                pos: end,
                pending: None,
            });
        },
        NodeV::Value(_) => {},
    }
}

/// The lexer reads the texts of readable nodes with spaces between them,
/// where a token ends behind the last, as the tokens that the nodes are
/// written with, and goes on behind them.
proof fn lemma_lex_nodes(text: Seq<char>, pos: int, l: Seq<NodeV>, k: nat)
    requires
        forall|i: int| 0 <= i < l.len() ==> readable(#[trigger] l[i]),
        k <= l.len(),
        0 <= pos,
        pos + nodes_text(l, k).len() <= text.len(),
        text.subrange(pos, pos + nodes_text(l, k).len()) == nodes_text(l, k),
        ends_token(text, pos + nodes_text(l, k).len()),
    ensures
        tokens(text, pos, None) == written_all(l, k) + tokens(
            text,
            pos + nodes_text(l, k).len(),
            None,
        ),
    decreases l, k,
{
    let t = nodes_text(l, k);
    let end = pos + t.len();
    let piece = text.subrange(pos, end);
    if k == 0 {
        assert(written_all(l, k) + tokens(text, pos, None) =~= tokens(text, pos, None));
    } else if k == 1 {
        lemma_lex_node(text, pos, l[0]);
        assert(written_all(l, 0) =~= Seq::<Lexeme>::empty());
        assert(written_all(l, 1) =~= written(l[0]));
    } else {
        let before = nodes_text(l, (k - 1) as nat);
        let last = node_text(l[k - 1]);
        assert(t == before.push(' ') + last);
        let mid = pos + before.len();
        assert(text.subrange(pos, mid) =~= before) by {
            assert forall|j: int| 0 <= j < before.len() implies text[pos + j] == before[j] by {
                assert(piece[j] == t[j]);
            }
        }
        assert(piece[before.len() as int] == ' ');
        assert(text[mid] == ' ');
        lemma_lex_nodes(text, pos, l, (k - 1) as nat);
        assert(text.subrange(mid + 1, end) =~= last) by {
            assert forall|j: int| 0 <= j < last.len() implies text[mid + 1 + j] == last[j] by {
                assert(piece[before.len() + 1 + j] == t[before.len() + 1 + j]);
            }
        }
        lemma_lex_node(text, mid + 1, l[k - 1]);
        lemma_scan_advances(text, mid + 1, false);
        assert(scan(text, mid, false) == scan(text, mid + 1, false));
        assert(lex_step(text, mid, None) == lex_step(text, mid + 1, None));
        assert(tokens(text, mid, None) == tokens(text, mid + 1, None));
        assert(written_all(l, (k - 1) as nat) + (written(l[k - 1]) + tokens(text, end, None))
            =~= written_all(l, k) + tokens(text, end, None));
    }
}

/// The text that a readable form is rendered as lexes to the tokens that
/// the form is written with.
pub proof fn law_tokens_of_rendered(n: NodeV)
    requires
        readable(n),
    ensures
        tokens_of(node_text(n)) == written(n),
{
    let text = node_text(n);
    assert(text.subrange(0, text.len() as int) =~= text);
    lemma_lex_node(text, 0, n);
    assert(tokens(text, text.len() as int, None) =~= Seq::<Lexeme>::empty());
    assert(written(n) + Seq::<Lexeme>::empty() =~= written(n));
}

/// Rendering a readable form and reading the text again gives the form
/// back, whole and in order, and nothing else.
pub proof fn law_reading_of_rendered(n: NodeV)
    requires
        readable(n),
    ensures
        parse_next(tokens_of(node_text(n))) == (
            Some(Ok::<NodeV, ErrorV>(n)),
            Seq::<Lexeme>::empty(),
        ),
{
    law_tokens_of_rendered(n);
    lemma_readable_is_parseable(n);
    law_parse_of_written(n, Seq::empty());
    assert(written(n) + Seq::<Lexeme>::empty() =~= written(n));
}

} // verus!
