//! The syntax tree of a script, and the parser that builds it from tokens.

use vstd::prelude::*;
use crate::text::{
    chars_of, float_text, has_point, int_text, is_float_text, isize_of_text, law_int_text_round_trip,
    parse_int, same_text,
};
use crate::token::{Lexeme, Token, TokenStream, TokenV, tokens_of};
use crate::value::{Value, ValueV, names_view, value_eq, value_text};
use crate::{Error, ErrorV};

verus! {

/// One form of a script.
#[derive(Debug, PartialEq)]
pub enum AstNode {
    /// A parenthesized form; it may be empty.
    List(Vec<AstNode>),
    /// An identifier.
    Symbol(String),
    /// A literal that evaluates to itself.
    Value(Value),
    /// A floating-point literal, as it was written. The host turns it into
    /// a number when the literal is evaluated.
    Float(String),
}

/// The mathematical value of an [`AstNode`].
pub ghost enum NodeV {
    List(Seq<NodeV>),
    Symbol(Seq<char>),
    Value(ValueV),
    Float(Seq<char>),
}

/// The mathematical values of a sequence of nodes.
pub open spec fn nodes_view(s: Seq<AstNode>) -> Seq<NodeV>
    decreases s,
{
    Seq::new(
        s.len(),
        |i: int|
            if 0 <= i < s.len() {
                s[i].view()
            } else {
                arbitrary()
            },
    )
}

/// What `nodes_view` holds: the value of each node, in order.
pub broadcast proof fn lemma_nodes_view(s: Seq<AstNode>)
    ensures
        #![trigger nodes_view(s)]
        nodes_view(s).len() == s.len(),
        forall|i: int| 0 <= i < s.len() ==> #[trigger] nodes_view(s)[i] == s[i]@,
{
    reveal_with_fuel(nodes_view, 2);
}

/// The values of a sequence with one more node at its end.
pub proof fn lemma_nodes_view_push(s: Seq<AstNode>, n: AstNode)
    ensures
        nodes_view(s.push(n)) == nodes_view(s).push(n@),
{
    lemma_nodes_view(s);
    lemma_nodes_view(s.push(n));
    assert(nodes_view(s.push(n)) =~= nodes_view(s).push(n@));
}

impl View for AstNode {
    type V = NodeV;

    open spec fn view(&self) -> NodeV
        decreases self,
    {
        match self {
            AstNode::List(l) => NodeV::List(nodes_view(l@)),
            AstNode::Symbol(s) => NodeV::Symbol(s@),
            AstNode::Value(v) => NodeV::Value(v@),
            AstNode::Float(t) => NodeV::Float(t@),
        }
    }
}

impl Default for AstNode {
    fn default() -> (r: Self)
        ensures
            r@ == NodeV::List(Seq::empty()),
    {
        let l: Vec<AstNode> = Vec::new();
        assert(nodes_view(l@) =~= Seq::empty());
        AstNode::List(l)
    }
}

/// A copy of a vector of nodes.
pub fn clone_nodes(l: &Vec<AstNode>) -> (out: Vec<AstNode>)
    ensures
        nodes_view(out@) == nodes_view(l@),
    decreases l,
{
    let mut out: Vec<AstNode> = Vec::new();
    let mut i: usize = 0;
    while i < l.len()
        invariant
            i <= l.len(),
            out.len() == i,
            forall|j: int| 0 <= j < i ==> out[j]@ == l[j]@,
        decreases l.len() - i,
    {
        out.push(l[i].clone());
        i += 1;
    }
    assert(nodes_view(out@) =~= nodes_view(l@));
    out
}

impl Clone for AstNode {
    fn clone(&self) -> (r: Self)
        ensures
            r@ == self@,
        decreases self,
    {
        match self {
            AstNode::List(l) => AstNode::List(clone_nodes(l)),
            AstNode::Symbol(s) => AstNode::Symbol(s.clone()),
            AstNode::Value(v) => AstNode::Value(v.clone()),
            AstNode::Float(t) => AstNode::Float(t.clone()),
        }
    }
}

/// Structural equality of two nodes. Literal values are compared as
/// values, float literals by their text.
pub open spec fn node_eq(a: NodeV, b: NodeV) -> bool
    decreases a,
{
    match (a, b) {
        (NodeV::List(x), NodeV::List(y)) => nodes_eq(x, y),
        (NodeV::Symbol(x), NodeV::Symbol(y)) => x == y,
        (NodeV::Value(x), NodeV::Value(y)) => value_eq(x, y),
        (NodeV::Float(x), NodeV::Float(y)) => x == y,
        _ => false,
    }
}

/// Structural equality of two sequences of nodes, item by item.
pub open spec fn nodes_eq(a: Seq<NodeV>, b: Seq<NodeV>) -> bool
    decreases a,
{
    a.len() == b.len() && forall|i: int| 0 <= i < a.len() ==> node_eq(a[i], b[i])
}

/// Tests two vectors of nodes for structural equality.
pub fn nodes_equal(a: &Vec<AstNode>, b: &Vec<AstNode>) -> (r: bool)
    ensures
        r == nodes_eq(nodes_view(a@), nodes_view(b@)),
    decreases a,
{
    broadcast use lemma_nodes_view;

    if a.len() != b.len() {
        return false;
    }
    let mut i: usize = 0;
    while i < a.len()
        invariant
            i <= a.len(),
            a.len() == b.len(),
            forall|j: int| 0 <= j < i ==> node_eq(a[j]@, b[j]@),
        decreases a.len() - i,
    {
        if !a[i].equals(&b[i]) {
            proof {
                lemma_nodes_view(a@);
                lemma_nodes_view(b@);
                assert(!node_eq(nodes_view(a@)[i as int], nodes_view(b@)[i as int]));
            }
            return false;
        }
        i += 1;
    }
    assert forall|j: int| 0 <= j < nodes_view(a@).len() implies node_eq(
        nodes_view(a@)[j],
        nodes_view(b@)[j],
    ) by {}
    true
}

impl AstNode {
    /// Structural equality with `other`.
    pub fn equals(&self, other: &AstNode) -> (r: bool)
        ensures
            r == node_eq(self@, other@),
        decreases self,
    {
        match (self, other) {
            (AstNode::List(x), AstNode::List(y)) => nodes_equal(x, y),
            (AstNode::Symbol(x), AstNode::Symbol(y)) => same_text(x, y),
            (AstNode::Value(x), AstNode::Value(y)) => x.equals(y),
            (AstNode::Float(x), AstNode::Float(y)) => same_text(x, y),
            _ => false,
        }
    }

    /// The items of a list node; any other node comes back unchanged.
    pub fn try_to_list(self) -> (r: Result<Vec<AstNode>, AstNode>)
        ensures
            match self {
                AstNode::List(l) => r == Ok::<Vec<AstNode>, AstNode>(l),
                _ => r == Err::<Vec<AstNode>, AstNode>(self),
            },
    {
        match self {
            AstNode::List(list) => Ok(list),
            o => Err(o),
        }
    }

    /// The name of a symbol node; any other node comes back unchanged.
    pub fn try_to_symbol(self) -> (r: Result<String, AstNode>)
        ensures
            match self {
                AstNode::Symbol(s) => r == Ok::<String, AstNode>(s),
                _ => r == Err::<String, AstNode>(self),
            },
    {
        match self {
            AstNode::Symbol(value) => Ok(value),
            o => Err(o),
        }
    }

    /// The value of a literal node; any other node comes back unchanged.
    pub fn try_to_value(self) -> (r: Result<Value, AstNode>)
        ensures
            match self {
                AstNode::Value(v) => r == Ok::<Value, AstNode>(v),
                _ => r == Err::<Value, AstNode>(self),
            },
    {
        match self {
            AstNode::Value(value) => Ok(value),
            o => Err(o),
        }
    }
}

/// The node that a bare token stands for: an integer where the text
/// reads as one that fits the machine word, else a float literal where it
/// holds a point and is written as a floating-point number, else a
/// symbol.
pub open spec fn classify(s: Seq<char>) -> NodeV {
    match isize_of_text(s) {
        Some(i) => NodeV::Value(ValueV::Integer(i)),
        None => if s.contains('.') && is_float_text(s) {
            NodeV::Float(s)
        } else {
            NodeV::Symbol(s)
        },
    }
}

impl AstNode {
    /// The node that the bare token `raw_symbol` stands for.
    pub fn parse_raw_symbol(raw_symbol: &str) -> (r: AstNode)
        ensures
            r@ == classify(raw_symbol@),
    {
        let chars = chars_of(raw_symbol);
        if let Some(int_value) = parse_int(&chars) {
            return AstNode::Value(Value::Integer(int_value));
        }
        if has_point(&chars) && float_text(&chars) {
            return AstNode::Float(String::from_str(raw_symbol));
        }
        AstNode::Symbol(String::from_str(raw_symbol))
    }
}

/// What one pull of the parser yields: a form or an error.
pub type Parsed = Result<NodeV, ErrorV>;

/// The message for a `)` that closes nothing.
pub open spec fn msg_stray_close() -> Seq<char> {
    "list end without current list"@
}

/// The message for a list that the input ends in.
pub open spec fn msg_unclosed() -> Seq<char> {
    "reached end of stream without end of list"@
}

/// One pull of the parser on the tokens `toks`, with the unfinished lists
/// around the current one in `lists`, outermost first, and the items read
/// so far of the list in progress in `current`. It gives the next
/// top-level form, or the error met on the way, or `None` where the
/// tokens end between two forms; and the tokens that are left.
pub open spec fn parse(toks: Seq<Lexeme>, lists: Seq<Seq<NodeV>>, current: Option<Seq<NodeV>>) -> (
    Option<Parsed>,
    Seq<Lexeme>,
)
    decreases toks.len(),
{
    if toks.len() == 0 {
        if current is None {
            (None, toks)
        } else {
            (Some(Err(ErrorV::Parser(msg_unclosed()))), toks)
        }
    } else {
        let rest = toks.drop_first();
        match toks[0] {
            Err(e) => (Some(Err(e)), rest),
            Ok(TokenV::ListStart) => parse(
                rest,
                match current {
                    Some(cur) => lists.push(cur),
                    None => lists,
                },
                Some(Seq::empty()),
            ),
            Ok(TokenV::ListEnd) => match current {
                None => (Some(Err(ErrorV::Parser(msg_stray_close()))), rest),
                Some(cur) => if lists.len() > 0 {
                    parse(rest, lists.drop_last(), Some(lists.last().push(NodeV::List(cur))))
                } else {
                    (Some(Ok(NodeV::List(cur))), rest)
                },
            },
            Ok(TokenV::Symbol(s)) => match current {
                Some(cur) => parse(rest, lists, Some(cur.push(classify(s)))),
                None => (Some(Ok(classify(s))), rest),
            },
            Ok(TokenV::String(s)) => match current {
                Some(cur) => parse(rest, lists, Some(cur.push(NodeV::Value(ValueV::String(s))))),
                None => (Some(Ok(NodeV::Value(ValueV::String(s)))), rest),
            },
        }
    }
}

/// The next top-level form of the tokens `toks`, with what is left.
pub open spec fn parse_next(toks: Seq<Lexeme>) -> (Option<Parsed>, Seq<Lexeme>) {
    parse(toks, Seq::empty(), None)
}

/// A pull of the parser uses up tokens: it leaves no more than it was
/// given, and fewer where it yields something.
pub proof fn lemma_parse_consumes(
    toks: Seq<Lexeme>,
    lists: Seq<Seq<NodeV>>,
    current: Option<Seq<NodeV>>,
)
    ensures
        parse(toks, lists, current).1.len() <= toks.len(),
        parse(toks, lists, current).0 is Some && toks.len() > 0 ==> parse(
            toks,
            lists,
            current,
        ).1.len() < toks.len(),
        parse(toks, lists, current).0 is None ==> current is None && toks.len() == 0,
    decreases toks.len(),
{
    if toks.len() > 0 {
        let rest = toks.drop_first();
        match toks[0] {
            Err(e) => {},
            Ok(TokenV::ListStart) => {
                lemma_parse_consumes(
                    rest,
                    match current {
                        Some(cur) => lists.push(cur),
                        None => lists,
                    },
                    Some(Seq::empty()),
                );
            },
            Ok(TokenV::ListEnd) => {
                match current {
                    Some(cur) => {
                        if lists.len() > 0 {
                            lemma_parse_consumes(
                                rest,
                                lists.drop_last(),
                                Some(lists.last().push(NodeV::List(cur))),
                            );
                        }
                    },
                    None => {},
                }
            },
            Ok(TokenV::Symbol(s)) => {
                match current {
                    Some(cur) => {
                        lemma_parse_consumes(rest, lists, Some(cur.push(classify(s))));
                    },
                    None => {},
                }
            },
            Ok(TokenV::String(s)) => {
                match current {
                    Some(cur) => {
                        lemma_parse_consumes(
                            rest,
                            lists,
                            Some(cur.push(NodeV::Value(ValueV::String(s)))),
                        );
                    },
                    None => {},
                }
            },
        }
    }
}

/// The forms `done`, and behind them what reading on gave.
pub open spec fn forms_then(done: Seq<NodeV>, more: Result<Seq<NodeV>, ErrorV>) -> Result<
    Seq<NodeV>,
    ErrorV,
> {
    match more {
        Ok(forms) => Ok(done + forms),
        Err(e) => Err(e),
    }
}

/// Every top-level form of the tokens `toks`, in order; or the first
/// error that a pull of the parser meets, lexical or of the parser, in
/// which case the script has no forms at all.
pub open spec fn parse_all(toks: Seq<Lexeme>) -> Result<Seq<NodeV>, ErrorV>
    decreases toks.len(),
{
    let (item, rest) = parse_next(toks);
    proof {
        lemma_parse_consumes(toks, Seq::empty(), None);
    }
    match item {
        None => Ok(Seq::empty()),
        Some(Err(e)) => Err(e),
        Some(Ok(node)) => if toks.len() > 0 {
            forms_then(seq![node], parse_all(rest))
        } else {
            Ok(seq![node])
        },
    }
}

/// The mathematical value of the outcome of reading a script.
pub open spec fn forms_view(r: Result<Vec<AstNode>, Error>) -> Result<Seq<NodeV>, ErrorV> {
    match r {
        Ok(forms) => Ok(nodes_view(forms@)),
        Err(e) => Err(e@),
    }
}

/// The mathematical value of what one pull of the parser yields.
pub open spec fn parsed_view(r: Option<Result<AstNode, Error>>) -> Option<Parsed> {
    match r {
        None => None,
        Some(Ok(n)) => Some(Ok(n@)),
        Some(Err(e)) => Some(Err(e@)),
    }
}

/// The mathematical values of the unfinished lists.
pub open spec fn lists_view(s: Seq<Vec<AstNode>>) -> Seq<Seq<NodeV>> {
    Seq::new(s.len(), |i: int| nodes_view(s[i]@))
}

/// A parser over the tokens of a script. It yields each top-level form
/// once.
#[derive(Debug)]
pub struct AstNodeStream {
    token_stream: TokenStream,
}

impl View for AstNodeStream {
    type V = Seq<Lexeme>;

    /// The tokens that the parser has still to read.
    closed spec fn view(&self) -> Seq<Lexeme> {
        self.token_stream@
    }
}

impl AstNodeStream {
    /// A parser over the tokens of `token_stream`.
    pub fn new(token_stream: TokenStream) -> (r: AstNodeStream)
        ensures
            r@ == token_stream@,
    {
        AstNodeStream { token_stream }
    }

    /// The next top-level form of the script, or the error that stands in
    /// its place; `None` once the tokens are used up between two forms.
    pub fn next(&mut self) -> (r: Option<Result<AstNode, Error>>)
        ensures
            parsed_view(r) == parse_next(old(self)@).0,
            final(self)@ == parse_next(old(self)@).1,
    {
        let mut lists: Vec<Vec<AstNode>> = Vec::new();
        let mut current: Option<Vec<AstNode>> = None;
        assert(lists_view(lists@) =~= Seq::empty());
        loop
            invariant
                parse_next(old(self)@) == parse(
                    self@,
                    lists_view(lists@),
                    match current {
                        Some(l) => Some(nodes_view(l@)),
                        None => None,
                    },
                ),
            decreases self@.len(),
        {
            let ghost lists0 = lists_view(lists@);
            let t = self.token_stream.next();
            match t {
                None => {
                    if current.is_none() {
                        return None;
                    } else {
                        return Some(
                            Err(
                                Error::ParserError(
                                    String::from_str("reached end of stream without end of list"),
                                ),
                            ),
                        );
                    }
                },
                Some(Err(e)) => {
                    return Some(Err(e));
                },
                Some(Ok(Token::ListStart)) => {
                    if let Some(l) = current.take() {
                        lists.push(l);
                        assert(lists_view(lists@) =~= lists0.push(nodes_view(l@)));
                    }
                    let fresh: Vec<AstNode> = Vec::new();
                    assert(nodes_view(fresh@) =~= Seq::empty()) by {
                        lemma_nodes_view(fresh@);
                    }
                    current = Some(fresh);
                },
                Some(Ok(Token::ListEnd)) => {
                    match current.take() {
                        None => {
                            return Some(
                                Err(
                                    Error::ParserError(
                                        String::from_str("list end without current list"),
                                    ),
                                ),
                            );
                        },
                        Some(list) => {
                            match lists.pop() {
                                Some(mut pl) => {
                                    let ghost pl0 = pl@;
                                    let node = AstNode::List(list);
                                    pl.push(node);
                                    proof {
                                        lemma_nodes_view_push(pl0, node);
                                        assert(lists_view(lists@) =~= lists0.drop_last());
                                        assert(lists0.last() == nodes_view(pl0));
                                    }
                                    current = Some(pl);
                                },
                                None => {
                                    return Some(Ok(AstNode::List(list)));
                                },
                            }
                        },
                    }
                },
                Some(Ok(Token::Symbol(s))) => {
                    let value = AstNode::parse_raw_symbol(s.as_str());
                    match current.take() {
                        Some(mut l) => {
                            let ghost l0 = l@;
                            l.push(value);
                            proof {
                                lemma_nodes_view_push(l0, value);
                            }
                            current = Some(l);
                        },
                        None => {
                            return Some(Ok(value));
                        },
                    }
                },
                Some(Ok(Token::String(s))) => {
                    let value = AstNode::Value(Value::String(s));
                    match current.take() {
                        Some(mut l) => {
                            let ghost l0 = l@;
                            l.push(value);
                            proof {
                                lemma_nodes_view_push(l0, value);
                            }
                            current = Some(l);
                        },
                        None => {
                            return Some(Ok(value));
                        },
                    }
                },
            }
        }
    }
}

/// Whether a node is one that the parser builds: lists of such nodes,
/// symbols that do not read as numbers, float literals that read as
/// floats and not as integers, and string and integer literals.
pub open spec fn parseable(n: NodeV) -> bool
    decreases n,
{
    match n {
        NodeV::List(l) => forall|i: int| 0 <= i < l.len() ==> parseable(#[trigger] l[i]),
        NodeV::Symbol(s) => classify(s) == n,
        NodeV::Float(t) => classify(t) == n,
        NodeV::Value(ValueV::String(_)) => true,
        NodeV::Value(ValueV::Integer(_)) => true,
        NodeV::Value(_) => false,
    }
}

/// The tokens that a node is written with: a list as its items between
/// parentheses, an integer as its decimal text, every other leaf as its
/// own text.
pub open spec fn written(n: NodeV) -> Seq<Lexeme>
    decreases n, 0nat,
{
    match n {
        NodeV::List(l) => seq![Ok(TokenV::ListStart)] + written_all(l, l.len()) + seq![
            Ok(TokenV::ListEnd),
        ],
        NodeV::Symbol(s) => seq![Ok(TokenV::Symbol(s))],
        NodeV::Float(t) => seq![Ok(TokenV::Symbol(t))],
        NodeV::Value(ValueV::String(s)) => seq![Ok(TokenV::String(s))],
        NodeV::Value(ValueV::Integer(i)) => seq![Ok(TokenV::Symbol(int_text(i as int)))],
        NodeV::Value(_) => Seq::empty(),
    }
}

/// The tokens that the first `k` nodes of `l` are written with, one node
/// after the other.
pub open spec fn written_all(l: Seq<NodeV>, k: nat) -> Seq<Lexeme>
    decreases l, k,
{
    if k == 0 || k > l.len() {
        Seq::empty()
    } else {
        written_all(l, (k - 1) as nat) + written(l[k - 1])
    }
}

/// Inside a list, the parser reads the tokens of a written node as that
/// node, and goes on behind them.
proof fn lemma_parse_inside(
    n: NodeV,
    rest: Seq<Lexeme>,
    lists: Seq<Seq<NodeV>>,
    cur: Seq<NodeV>,
)
    requires
        parseable(n),
    ensures
        parse(written(n) + rest, lists, Some(cur)) == parse(rest, lists, Some(cur.push(n))),
    decreases n, 0nat,
{
    let toks = written(n) + rest;
    match n {
        NodeV::List(l) => {
            let close = seq![Ok::<TokenV, ErrorV>(TokenV::ListEnd)];
            let inner = written_all(l, l.len()) + (close + rest);
            assert(toks[0] == Ok::<TokenV, ErrorV>(TokenV::ListStart));
            assert(toks.drop_first() =~= inner);
            lemma_parse_all_inside(l, l.len(), close + rest, lists.push(cur), Seq::empty());
            assert(Seq::<NodeV>::empty() + l.take(l.len() as int) =~= l);
            assert((close + rest)[0] == Ok::<TokenV, ErrorV>(TokenV::ListEnd));
            assert((close + rest).drop_first() =~= rest);
            assert(lists.push(cur).drop_last() =~= lists);
        },
        NodeV::Value(ValueV::Integer(i)) => {
            law_int_text_round_trip(i as int);
            assert(toks.drop_first() =~= rest);
        },
        _ => {
            assert(toks.drop_first() =~= rest);
        },
    }
}

/// Inside a list, the parser reads the tokens of written nodes as those
/// nodes, in their order, and goes on behind them.
proof fn lemma_parse_all_inside(
    l: Seq<NodeV>,
    k: nat,
    rest: Seq<Lexeme>,
    lists: Seq<Seq<NodeV>>,
    cur: Seq<NodeV>,
)
    requires
        forall|i: int| 0 <= i < l.len() ==> parseable(#[trigger] l[i]),
        k <= l.len(),
    ensures
        parse(written_all(l, k) + rest, lists, Some(cur)) == parse(
            rest,
            lists,
            Some(cur + l.take(k as int)),
        ),
    decreases l, k,
{
    if k == 0 {
        assert(written_all(l, k) + rest =~= rest);
        assert(cur + l.take(0) =~= cur);
    } else {
        let last = l[k - 1];
        let before = written_all(l, (k - 1) as nat);
        assert(written_all(l, k) + rest =~= before + (written(last) + rest));
        lemma_parse_all_inside(l, (k - 1) as nat, written(last) + rest, lists, cur);
        lemma_parse_inside(last, rest, lists, cur + l.take(k - 1));
        assert((cur + l.take(k - 1)).push(last) =~= cur + l.take(k as int));
    }
}

/// Parsing what a node is written with gives the node back, whole and in
/// order, and leaves the tokens behind it untouched.
pub proof fn law_parse_of_written(n: NodeV, rest: Seq<Lexeme>)
    requires
        parseable(n),
    ensures
        parse_next(written(n) + rest) == (Some(Ok::<NodeV, ErrorV>(n)), rest),
{
    let toks = written(n) + rest;
    match n {
        NodeV::List(l) => {
            let close = seq![Ok::<TokenV, ErrorV>(TokenV::ListEnd)];
            let inner = written_all(l, l.len()) + (close + rest);
            assert(toks[0] == Ok::<TokenV, ErrorV>(TokenV::ListStart));
            assert(toks.drop_first() =~= inner);
            lemma_parse_all_inside(l, l.len(), close + rest, Seq::empty(), Seq::empty());
            assert(Seq::<NodeV>::empty() + l.take(l.len() as int) =~= l);
            assert((close + rest)[0] == Ok::<TokenV, ErrorV>(TokenV::ListEnd));
            assert((close + rest).drop_first() =~= rest);
        },
        NodeV::Value(ValueV::Integer(i)) => {
            law_int_text_round_trip(i as int);
            assert(toks.drop_first() =~= rest);
        },
        _ => {
            assert(toks.drop_first() =~= rest);
        },
    }
}

/// Whether the tokens `toks`, read at the nesting depth `depth`, hold no
/// lexical error and never close the list that is open at depth 1.
pub open spec fn stays_open(toks: Seq<Lexeme>, depth: int) -> bool
    decreases toks.len(),
{
    if toks.len() == 0 {
        true
    } else {
        match toks[0] {
            Ok(TokenV::ListStart) => stays_open(toks.drop_first(), depth + 1),
            Ok(TokenV::ListEnd) => depth > 1 && stays_open(toks.drop_first(), depth - 1),
            Ok(_) => stays_open(toks.drop_first(), depth),
            Err(_) => false,
        }
    }
}

/// A list that is open when the tokens end is a parse error, however deep
/// the parser is inside it.
proof fn lemma_parse_unclosed_inside(
    toks: Seq<Lexeme>,
    lists: Seq<Seq<NodeV>>,
    cur: Seq<NodeV>,
)
    requires
        stays_open(toks, lists.len() as int + 1),
    ensures
        parse(toks, lists, Some(cur)).0 == Some(Err::<NodeV, ErrorV>(ErrorV::Parser(msg_unclosed()))),
    decreases toks.len(),
{
    if toks.len() > 0 {
        let rest = toks.drop_first();
        match toks[0] {
            Ok(TokenV::ListStart) => {
                lemma_parse_unclosed_inside(rest, lists.push(cur), Seq::empty());
            },
            Ok(TokenV::ListEnd) => {
                lemma_parse_unclosed_inside(
                    rest,
                    lists.drop_last(),
                    lists.last().push(NodeV::List(cur)),
                );
            },
            Ok(TokenV::Symbol(s)) => {
                lemma_parse_unclosed_inside(rest, lists, cur.push(classify(s)));
            },
            Ok(TokenV::String(s)) => {
                lemma_parse_unclosed_inside(rest, lists, cur.push(NodeV::Value(ValueV::String(s))));
            },
            Err(_) => {},
        }
    }
}

/// A text whose first form opens a list and never closes it fails with a
/// parse error: no form comes out of it.
pub proof fn law_missing_close(toks: Seq<Lexeme>)
    requires
        toks.len() > 0,
        toks[0] == Ok::<TokenV, ErrorV>(TokenV::ListStart),
        stays_open(toks.drop_first(), 1),
    ensures
        parse_next(toks).0 == Some(Err::<NodeV, ErrorV>(ErrorV::Parser(msg_unclosed()))),
{
    lemma_parse_unclosed_inside(toks.drop_first(), Seq::empty(), Seq::empty());
}

/// A `)` where no list is open fails with a parse error: no form comes
/// out of it.
pub proof fn law_extra_close(toks: Seq<Lexeme>)
    requires
        toks.len() > 0,
        toks[0] == Ok::<TokenV, ErrorV>(TokenV::ListEnd),
    ensures
        parse_next(toks).0 == Some(Err::<NodeV, ErrorV>(ErrorV::Parser(msg_stray_close()))),
{
}

/// The characters of a string literal between its quotes: a backslash
/// before each double quote and each backslash of `s`.
pub open spec fn escaped(s: Seq<char>) -> Seq<char>
    decreases s.len(),
{
    if s.len() == 0 {
        Seq::empty()
    } else if s.last() == '"' || s.last() == '\\' {
        escaped(s.drop_last()).push('\\').push(s.last())
    } else {
        escaped(s.drop_last()).push(s.last())
    }
}

/// The text of a node as a script writes it: a list as its items between
/// parentheses with spaces, a string literal between quotes, every other
/// literal as its displayed text.
pub open spec fn node_text(n: NodeV) -> Seq<char>
    decreases n, 0nat,
{
    match n {
        NodeV::List(l) => seq!['('] + nodes_text(l, l.len()) + seq![')'],
        NodeV::Symbol(s) => s,
        NodeV::Float(t) => t,
        NodeV::Value(ValueV::String(s)) => seq!['"'] + escaped(s) + seq!['"'],
        NodeV::Value(v) => value_text(v, false),
    }
}

/// The texts of the first `k` nodes of `l`, with spaces between them.
pub open spec fn nodes_text(l: Seq<NodeV>, k: nat) -> Seq<char>
    decreases l, k,
{
    if k == 0 || k > l.len() {
        Seq::empty()
    } else if k == 1 {
        node_text(l[0])
    } else {
        nodes_text(l, (k - 1) as nat).push(' ') + node_text(l[k - 1])
    }
}

/// The first `k` names of `l`, with spaces between them.
pub open spec fn names_text(l: Seq<Seq<char>>, k: nat) -> Seq<char>
    decreases k,
{
    if k == 0 || k > l.len() {
        Seq::empty()
    } else if k == 1 {
        l[0]
    } else {
        names_text(l, (k - 1) as nat).push(' ') + l[k - 1]
    }
}

/// The text of a lambda: the form that makes it.
pub open spec fn lambda_text(vars: Seq<Seq<char>>, body: Seq<NodeV>) -> Seq<char>
    decreases body, body.len() + 1,
{
    "(lambda ("@ + names_text(vars, vars.len()) + seq![')'] + (if body.len() > 0 {
        seq![' '] + nodes_text(body, body.len())
    } else {
        Seq::empty()
    }) + seq![')']
}

/// Appends to `out` the characters of the string literal `s`, escaped.
pub fn render_escaped(s: &str, out: &mut String)
    ensures
        final(out)@ == old(out)@ + escaped(s@),
{
    let v = chars_of(s);
    let mut i: usize = 0;
    assert(v@.take(0) =~= Seq::empty());
    while i < v.len()
        invariant
            i <= v.len(),
            v@ == s@,
            out@ == old(out)@ + escaped(v@.take(i as int)),
        decreases v.len() - i,
    {
        let c = v[i];
        assert(v@.take(i + 1).drop_last() =~= v@.take(i as int));
        if c == '"' || c == '\\' {
            out.push('\\');
        }
        out.push(c);
        assert(out@ =~= old(out)@ + escaped(v@.take(i + 1)));
        i += 1;
    }
    assert(v@.take(v.len() as int) =~= v@);
}

/// Appends to `out` the names of `l`, with spaces between them.
pub fn render_names(l: &Vec<String>, out: &mut String)
    ensures
        final(out)@ == old(out)@ + names_text(names_view(l@), l.len() as nat),
{
    let ghost lv = names_view(l@);
    let mut i: usize = 0;
    while i < l.len()
        invariant
            i <= l.len(),
            lv == names_view(l@),
            out@ == old(out)@ + names_text(lv, i as nat),
        decreases l.len() - i,
    {
        if i > 0 {
            out.push(' ');
        }
        out.append(l[i].as_str());
        assert(out@ =~= old(out)@ + names_text(lv, (i + 1) as nat));
        i += 1;
    }
}

/// Appends to `out` the texts of the nodes of `l`, with spaces between
/// them.
pub fn render_nodes(l: &Vec<AstNode>, out: &mut String)
    ensures
        final(out)@ == old(out)@ + nodes_text(nodes_view(l@), l.len() as nat),
    decreases l, 0nat,
{
    let ghost lv = nodes_view(l@);
    proof {
        lemma_nodes_view(l@);
    }
    let mut i: usize = 0;
    while i < l.len()
        invariant
            i <= l.len(),
            lv == nodes_view(l@),
            lv.len() == l.len(),
            forall|j: int| 0 <= j < l.len() ==> lv[j] == l[j]@,
            out@ == old(out)@ + nodes_text(lv, i as nat),
        decreases l.len() - i,
    {
        if i > 0 {
            out.push(' ');
        }
        l[i].render(out);
        assert(out@ =~= old(out)@ + nodes_text(lv, (i + 1) as nat));
        i += 1;
    }
}

/// Appends to `out` the text of the lambda with the parameters `vars` and
/// the body `body`.
pub fn render_lambda(vars: &Vec<String>, body: &Vec<AstNode>, out: &mut String)
    ensures
        final(out)@ == old(out)@ + lambda_text(names_view(vars@), nodes_view(body@)),
    decreases body, 1nat,
{
    proof {
        lemma_nodes_view(body@);
    }
    out.append("(lambda (");
    render_names(vars, out);
    out.push(')');
    if body.len() > 0 {
        out.push(' ');
        render_nodes(body, out);
    }
    out.push(')');
    assert(out@ =~= old(out)@ + lambda_text(names_view(vars@), nodes_view(body@)));
}

impl AstNode {
    /// Appends the text of the node to `out`.
    pub fn render(&self, out: &mut String)
        ensures
            final(out)@ == old(out)@ + node_text(self@),
        decreases self, 0nat,
    {
        match self {
            AstNode::List(l) => {
                proof {
                    lemma_nodes_view(l@);
                }
                out.push('(');
                render_nodes(l, out);
                out.push(')');
                assert(out@ =~= old(out)@ + node_text(self@));
            },
            AstNode::Symbol(s) => {
                out.append(s.as_str());
            },
            AstNode::Float(t) => {
                out.append(t.as_str());
            },
            AstNode::Value(Value::String(s)) => {
                out.push('"');
                render_escaped(s.as_str(), out);
                out.push('"');
                assert(out@ =~= old(out)@ + node_text(self@));
            },
            AstNode::Value(v) => {
                v.render(false, out);
            },
        }
    }

    /// The text of the node as a script writes it.
    pub fn to_string(&self) -> (s: String)
        ensures
            s@ == node_text(self@),
    {
        let mut out = String::new();
        self.render(&mut out);
        assert(out@ =~= node_text(self@));
        out
    }
}

/// A token as the parser understands it, written anew: a bare token is
/// written as the node that it stands for, so that a number comes out in
/// its plain decimal form; every other token is what it was.
pub open spec fn rewritten(t: Lexeme) -> Seq<Lexeme> {
    match t {
        Ok(TokenV::Symbol(s)) => written(classify(s)),
        _ => seq![t],
    }
}

/// The tokens `toks`, each written anew, in their order.
pub open spec fn rewritten_all(toks: Seq<Lexeme>) -> Seq<Lexeme>
    decreases toks.len(),
{
    if toks.len() == 0 {
        Seq::empty()
    } else {
        rewritten(toks[0]) + rewritten_all(toks.drop_first())
    }
}

/// The tokens that open the first `k` of the unfinished lists `lists`:
/// for each an opening parenthesis and the items read so far.
pub open spec fn opened(lists: Seq<Seq<NodeV>>, k: nat) -> Seq<Lexeme>
    decreases k,
{
    if k == 0 || k > lists.len() {
        Seq::empty()
    } else {
        opened(lists, (k - 1) as nat) + seq![Ok::<TokenV, ErrorV>(TokenV::ListStart)]
            + written_all(lists[k - 1], lists[k - 1].len())
    }
}

proof fn lemma_written_all_prefix(a: Seq<NodeV>, b: Seq<NodeV>, k: nat)
    requires
        k <= a.len(),
        k <= b.len(),
        forall|i: int| 0 <= i < k ==> a[i] == b[i],
    ensures
        written_all(a, k) == written_all(b, k),
    decreases k,
{
    if k > 0 {
        lemma_written_all_prefix(a, b, (k - 1) as nat);
    }
}

proof fn lemma_written_all_push(l: Seq<NodeV>, x: NodeV)
    ensures
        written_all(l.push(x), l.len() + 1) == written_all(l, l.len()) + written(x),
{
    lemma_written_all_prefix(l.push(x), l, l.len());
}

proof fn lemma_opened_prefix(a: Seq<Seq<NodeV>>, b: Seq<Seq<NodeV>>, k: nat)
    requires
        k <= a.len(),
        k <= b.len(),
        forall|i: int| 0 <= i < k ==> a[i] == b[i],
    ensures
        opened(a, k) == opened(b, k),
    decreases k,
{
    if k > 0 {
        lemma_opened_prefix(a, b, (k - 1) as nat);
    }
}

/// The lists that are open with one more item at the end of the
/// innermost one.
proof fn lemma_opened_push(lists: Seq<Seq<NodeV>>, cur: Seq<NodeV>, x: NodeV)
    ensures
        opened(lists.push(cur.push(x)), lists.len() + 1) == opened(
            lists.push(cur),
            lists.len() + 1,
        ) + written(x),
{
    let a = lists.push(cur.push(x));
    let b = lists.push(cur);
    lemma_opened_prefix(a, b, lists.len());
    lemma_written_all_push(cur, x);
    let open = seq![Ok::<TokenV, ErrorV>(TokenV::ListStart)];
    assert(opened(a, lists.len() + 1) == opened(a, lists.len()) + open + written_all(
        cur.push(x),
        cur.len() + 1,
    ));
    assert(opened(b, lists.len() + 1) == opened(b, lists.len()) + open + written_all(
        cur,
        cur.len(),
    ));
    assert(opened(a, lists.len()) + open + (written_all(cur, cur.len()) + written(x)) =~= (opened(
        b,
        lists.len(),
    ) + open + written_all(cur, cur.len())) + written(x));
}

/// Inside a list, what the parser has read and what it reads up to the
/// end of the form is, written anew, the form that comes out.
proof fn lemma_parsed_inside(toks: Seq<Lexeme>, lists: Seq<Seq<NodeV>>, cur: Seq<NodeV>, n: NodeV)
    requires
        parse(toks, lists, Some(cur)).0 == Some(Ok::<NodeV, ErrorV>(n)),
    ensures
        opened(lists.push(cur), lists.len() + 1) + rewritten_all(toks) == written(n)
            + rewritten_all(parse(toks, lists, Some(cur)).1),
    decreases toks.len(),
{
    let all = lists.push(cur);
    let depth = lists.len();
    let open = seq![Ok::<TokenV, ErrorV>(TokenV::ListStart)];
    let close = seq![Ok::<TokenV, ErrorV>(TokenV::ListEnd)];
    if toks.len() > 0 {
        let rest = toks.drop_first();
        let left = parse(toks, lists, Some(cur)).1;
        match toks[0] {
            Err(e) => {},
            Ok(TokenV::ListStart) => {
                lemma_parsed_inside(rest, all, Seq::empty(), n);
                let deeper = all.push(Seq::empty());
                lemma_opened_prefix(deeper, all, depth + 1);
                assert(opened(deeper, depth + 2) =~= opened(all, depth + 1) + open);
                assert(rewritten_all(toks) == open + rewritten_all(rest));
                assert((opened(all, depth + 1) + open) + rewritten_all(rest) =~= opened(
                    all,
                    depth + 1,
                ) + (open + rewritten_all(rest)));
            },
            Ok(TokenV::ListEnd) => {
                assert(rewritten_all(toks) == close + rewritten_all(rest));
                let whole = NodeV::List(cur);
                assert(written(whole) == open + written_all(cur, cur.len()) + close);
                if depth > 0 {
                    let outer = lists.drop_last();
                    let grown = lists.last().push(whole);
                    lemma_parsed_inside(rest, outer, grown, n);
                    lemma_opened_push(outer, lists.last(), whole);
                    assert(outer.push(lists.last()) =~= lists);
                    lemma_opened_prefix(all, lists, depth);
                    assert(opened(all, depth + 1) == opened(all, depth) + open + written_all(
                        cur,
                        cur.len(),
                    ));
                    assert(opened(outer.push(grown), depth) =~= opened(all, depth + 1) + close);
                    assert((opened(all, depth + 1) + close) + rewritten_all(rest) =~= opened(
                        all,
                        depth + 1,
                    ) + (close + rewritten_all(rest)));
                } else {
                    assert(opened(all, 0) =~= Seq::empty());
                    assert(opened(all, 1) =~= open + written_all(cur, cur.len()));
                    assert(opened(all, 1) + (close + rewritten_all(rest)) =~= written(whole)
                        + rewritten_all(rest));
                }
            },
            Ok(TokenV::Symbol(s)) => {
                let leaf = classify(s);
                lemma_parsed_inside(rest, lists, cur.push(leaf), n);
                lemma_opened_push(lists, cur, leaf);
                assert(rewritten_all(toks) == written(leaf) + rewritten_all(rest));
                assert((opened(all, depth + 1) + written(leaf)) + rewritten_all(rest) =~= opened(
                    all,
                    depth + 1,
                ) + (written(leaf) + rewritten_all(rest)));
            },
            Ok(TokenV::String(s)) => {
                let leaf = NodeV::Value(ValueV::String(s));
                lemma_parsed_inside(rest, lists, cur.push(leaf), n);
                lemma_opened_push(lists, cur, leaf);
                assert(rewritten_all(toks) == written(leaf) + rewritten_all(rest));
                assert((opened(all, depth + 1) + written(leaf)) + rewritten_all(rest) =~= opened(
                    all,
                    depth + 1,
                ) + (written(leaf) + rewritten_all(rest)));
            },
        }
    }
}

/// A form that the parser reads is, written again, the tokens that it
/// was read from: every token is in its place, no form is lost and none
/// is moved; only numbers come out in their plain form. The tokens
/// behind the form are left as they were.
pub proof fn law_written_of_parsed(toks: Seq<Lexeme>, n: NodeV)
    requires
        parse_next(toks).0 == Some(Ok::<NodeV, ErrorV>(n)),
    ensures
        rewritten_all(toks) == written(n) + rewritten_all(parse_next(toks).1),
{
    let rest = toks.drop_first();
    match toks[0] {
        Ok(TokenV::ListStart) => {
            let lists = Seq::<Seq<NodeV>>::empty();
            let cur = Seq::<NodeV>::empty();
            lemma_parsed_inside(rest, lists, cur, n);
            let open = seq![Ok::<TokenV, ErrorV>(TokenV::ListStart)];
            assert(opened(lists.push(cur), 0) =~= Seq::empty());
            assert(opened(lists.push(cur), 1) =~= open);
        },
        _ => {},
    }
}

/// Reads the whole script `text`: every top-level form, in order, or the
/// first error of the lexer or the parser. A script with an error
/// anywhere gives no form.
pub fn parse_script(text: &str) -> (r: Result<Vec<AstNode>, Error>)
    ensures
        forms_view(r) == parse_all(tokens_of(text@)),
{
    let mut stream = AstNodeStream::new(TokenStream::new(text));
    let mut forms: Vec<AstNode> = Vec::new();
    proof {
        lemma_nodes_view(forms@);
        assert(nodes_view(forms@) =~= Seq::empty());
        match parse_all(stream@) {
            Ok(more) => {
                assert(Seq::<NodeV>::empty() + more =~= more);
            },
            Err(e) => {},
        }
    }
    loop
        invariant
            stream@.len() <= tokens_of(text@).len(),
            parse_all(tokens_of(text@)) == forms_then(nodes_view(forms@), parse_all(stream@)),
        decreases stream@.len(),
    {
        let ghost before = stream@;
        let ghost done = forms@;
        proof {
            lemma_parse_consumes(before, Seq::empty(), None);
        }
        match stream.next() {
            None => {
                proof {
                    assert(nodes_view(forms@) + Seq::<NodeV>::empty() =~= nodes_view(forms@));
                }
                return Ok(forms);
            },
            Some(Err(e)) => {
                return Err(e);
            },
            Some(Ok(node)) => {
                forms.push(node);
                proof {
                    lemma_nodes_view_push(done, node);
                    assert(before.len() > 0);
                    match parse_all(stream@) {
                        Ok(more) => {
                            assert(nodes_view(done) + (seq![node@] + more) =~= nodes_view(
                                done,
                            ).push(node@) + more);
                        },
                        Err(e) => {},
                    }
                }
            },
        }
    }
}

/// Whether every one of `toks` is a token: the lexer met no error.
pub open spec fn all_tokens(toks: Seq<Lexeme>) -> bool {
    forall|i: int| 0 <= i < toks.len() ==> (#[trigger] toks[i]) is Ok
}

/// Whether the parentheses of the tokens `toks` balance, read at the
/// nesting depth `depth`: no `)` stands where no list is open, and no
/// list is open at the end.
pub open spec fn balanced(toks: Seq<Lexeme>, depth: int) -> bool
    decreases toks.len(),
{
    if toks.len() == 0 {
        depth == 0
    } else {
        match toks[0] {
            Ok(TokenV::ListStart) => balanced(toks.drop_first(), depth + 1),
            Ok(TokenV::ListEnd) => depth > 0 && balanced(toks.drop_first(), depth - 1),
            _ => balanced(toks.drop_first(), depth),
        }
    }
}

/// Inside a list, a pull of the parser on tokens without lexical errors
/// gives a form where the list is closed, and then the balance of the
/// tokens is that of those left; else it gives an error of the parser,
/// and the tokens do not balance.
proof fn lemma_balance_inside(toks: Seq<Lexeme>, lists: Seq<Seq<NodeV>>, cur: Seq<NodeV>)
    requires
        all_tokens(toks),
    ensures
        match parse(toks, lists, Some(cur)).0 {
            Some(Ok(_)) => all_tokens(parse(toks, lists, Some(cur)).1) && balanced(
                toks,
                lists.len() as int + 1,
            ) == balanced(parse(toks, lists, Some(cur)).1, 0),
            Some(Err(e)) => e is Parser && !balanced(toks, lists.len() as int + 1),
            None => false,
        },
    decreases toks.len(),
{
    if toks.len() > 0 {
        let rest = toks.drop_first();
        assert(toks[0] is Ok);
        assert forall|i: int| 0 <= i < rest.len() implies (#[trigger] rest[i]) is Ok by {
            assert(rest[i] == toks[i + 1]);
        }
        match toks[0] {
            Ok(TokenV::ListStart) => {
                lemma_balance_inside(rest, lists.push(cur), Seq::empty());
            },
            Ok(TokenV::ListEnd) => {
                if lists.len() > 0 {
                    lemma_balance_inside(
                        rest,
                        lists.drop_last(),
                        lists.last().push(NodeV::List(cur)),
                    );
                }
            },
            Ok(TokenV::Symbol(s)) => {
                lemma_balance_inside(rest, lists, cur.push(classify(s)));
            },
            Ok(TokenV::String(s)) => {
                lemma_balance_inside(rest, lists, cur.push(NodeV::Value(ValueV::String(s))));
            },
            Err(_) => {},
        }
    }
}

/// On tokens without lexical errors the balance of the parentheses
/// decides the reading: tokens that balance read as forms, and tokens
/// that do not, with a `)` too many or too few anywhere among them, fail
/// with an error of the parser and give no form.
pub proof fn law_balance_decides_reading(toks: Seq<Lexeme>)
    requires
        all_tokens(toks),
    ensures
        balanced(toks, 0) ==> parse_all(toks) is Ok,
        !balanced(toks, 0) ==> parse_all(toks) matches Err(ErrorV::Parser(_)),
    decreases toks.len(),
{
    if toks.len() > 0 {
        let rest = toks.drop_first();
        assert(toks[0] is Ok);
        assert forall|i: int| 0 <= i < rest.len() implies (#[trigger] rest[i]) is Ok by {
            assert(rest[i] == toks[i + 1]);
        }
        lemma_parse_consumes(toks, Seq::empty(), None);
        let (item, left) = parse_next(toks);
        match toks[0] {
            Ok(TokenV::ListStart) => {
                lemma_balance_inside(rest, Seq::empty(), Seq::empty());
                if item matches Some(Ok(_)) {
                    law_balance_decides_reading(left);
                }
            },
            Ok(TokenV::ListEnd) => {},
            Ok(_) => {
                law_balance_decides_reading(left);
            },
            Err(_) => {},
        }
    }
}

} // verus!
