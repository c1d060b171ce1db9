//! The lexer: from the characters of a script to its tokens.

use vstd::prelude::*;
use crate::text::{
    ascii_control, chars_of, is_ascii_control, is_symbol_char, is_whitespace, whitespace,
};
use crate::{Error, ErrorV};

verus! {

/// One token of a script.
#[derive(Debug, PartialEq)]
pub enum Token {
    /// `(`
    ListStart,
    /// `)`
    ListEnd,
    /// A string literal, without its quotes and with its escapes resolved.
    String(String),
    /// A run of symbol characters.
    Symbol(String),
}

/// The mathematical value of a [`Token`].
pub ghost enum TokenV {
    ListStart,
    ListEnd,
    String(Seq<char>),
    Symbol(Seq<char>),
}

impl View for Token {
    type V = TokenV;

    open spec fn view(&self) -> TokenV {
        match self {
            Token::ListStart => TokenV::ListStart,
            Token::ListEnd => TokenV::ListEnd,
            Token::String(s) => TokenV::String(s@),
            Token::Symbol(s) => TokenV::Symbol(s@),
        }
    }
}

/// What one pull of the lexer yields: a token or a lexical error.
pub type Lexeme = Result<TokenV, ErrorV>;

/// The mathematical value of what one pull of the lexer yields.
pub open spec fn lexeme_view(r: Result<Token, Error>) -> Lexeme {
    match r {
        Ok(t) => Ok(t@),
        Err(e) => Err(e@),
    }
}

/// The characters that a symbol is made of.
pub trait FrispSymbolChar {
    /// Whether the character can stand in a symbol.
    spec fn symbol_char(&self) -> bool;

    /// Tests whether the character can stand in a symbol.
    fn is_frisp_symbol(&self) -> (r: bool)
        ensures
            r == self.symbol_char(),
    ;
}

impl FrispSymbolChar for char {
    open spec fn symbol_char(&self) -> bool {
        is_symbol_char(*self)
    }

    fn is_frisp_symbol(&self) -> (r: bool) {
        let c = *self;
        if c == '(' || c == ')' || c == '"' {
            false
        } else if ('0' <= c && c <= '9') || ('a' <= c && c <= 'z') || ('A' <= c && c <= 'Z') {
            true
        } else {
            ('!' <= c && c <= '/') || (':' <= c && c <= '@') || ('[' <= c && c <= '`') || ('{' <= c
                && c <= '~')
        }
    }
}

/// The state of the lexer after one pull, with what the pull yielded:
/// `item` is `None` at the end of the input.
pub ghost struct Lexed {
    pub item: Option<Lexeme>,
    pub pos: int,
    pub pending: Option<TokenV>,
}

/// The message for a string literal that the input ends in.
pub open spec fn msg_open_string() -> Seq<char> {
    "EOF while reading string"@
}

/// The message for a character that cannot continue a symbol.
pub open spec fn msg_bad_symbol_char(c: char) -> Seq<char> {
    "invalid char sym: "@.push(c)
}

/// The message for a character that cannot start a token.
pub open spec fn msg_bad_token(c: char) -> Seq<char> {
    "invalid token: '"@.push(c).push('\'')
}

/// Reads a string literal whose opening quote stands before `pos`, with
/// the characters `buf` read so far. A backslash takes the character
/// after it as it is. Gives the literal's text and the position after the
/// closing quote, or `None` where the input ends first.
pub open spec fn scan_string(s: Seq<char>, pos: int, buf: Seq<char>) -> (Option<Seq<char>>, int)
    decreases s.len() - pos,
{
    if pos < 0 || pos >= s.len() {
        (None, s.len() as int)
    } else if s[pos] == '"' {
        (Some(buf), pos + 1)
    } else if s[pos] == '\\' {
        if pos + 1 < s.len() {
            scan_string(s, pos + 2, buf.push(s[pos + 1]))
        } else {
            (None, s.len() as int)
        }
    } else {
        scan_string(s, pos + 1, buf.push(s[pos]))
    }
}

/// Reads on in a symbol of which `buf` has been read. Whitespace or a
/// parenthesis ends the symbol, and a parenthesis is kept as the token of
/// the next pull; a character that is neither these nor a symbol
/// character is an error.
pub open spec fn scan_symbol(s: Seq<char>, pos: int, buf: Seq<char>) -> Lexed
    decreases s.len() - pos,
{
    if pos < 0 || pos >= s.len() {
        Lexed { item: Some(Ok(TokenV::Symbol(buf))), pos: s.len() as int, pending: None }
    } else if is_whitespace(s[pos]) {
        Lexed { item: Some(Ok(TokenV::Symbol(buf))), pos: pos + 1, pending: None }
    } else if s[pos] == '(' {
        Lexed {
            item: Some(Ok(TokenV::Symbol(buf))),
            pos: pos + 1,
            pending: Some(TokenV::ListStart),
        }
    } else if s[pos] == ')' {
        Lexed { item: Some(Ok(TokenV::Symbol(buf))), pos: pos + 1, pending: Some(TokenV::ListEnd) }
    } else if is_symbol_char(s[pos]) {
        scan_symbol(s, pos + 1, buf.push(s[pos]))
    } else {
        Lexed {
            item: Some(Err(ErrorV::Tokenizer(msg_bad_symbol_char(s[pos])))),
            pos: pos + 1,
            pending: None,
        }
    }
}

/// Reads the next token from `pos` on, inside a comment or not.
/// Whitespace is skipped; a `#` opens a comment that runs up to and
/// including the next control character.
pub open spec fn scan(s: Seq<char>, pos: int, in_comment: bool) -> Lexed
    decreases s.len() - pos,
{
    if pos < 0 || pos >= s.len() {
        Lexed { item: None, pos: s.len() as int, pending: None }
    } else if in_comment {
        scan(s, pos + 1, !is_ascii_control(s[pos]))
    } else if is_whitespace(s[pos]) {
        scan(s, pos + 1, false)
    } else if s[pos] == '#' {
        scan(s, pos + 1, true)
    } else if s[pos] == '(' {
        Lexed { item: Some(Ok(TokenV::ListStart)), pos: pos + 1, pending: None }
    } else if s[pos] == ')' {
        Lexed { item: Some(Ok(TokenV::ListEnd)), pos: pos + 1, pending: None }
    } else if s[pos] == '"' {
        let (text, end) = scan_string(s, pos + 1, Seq::empty());
        match text {
            Some(t) => Lexed { item: Some(Ok(TokenV::String(t))), pos: end, pending: None },
            None => Lexed {
                item: Some(Err(ErrorV::Tokenizer(msg_open_string()))),
                pos: end,
                pending: None,
            },
        }
    } else if is_symbol_char(s[pos]) {
        scan_symbol(s, pos + 1, seq![s[pos]])
    } else {
        Lexed {
            item: Some(Err(ErrorV::Tokenizer(msg_bad_token(s[pos])))),
            pos: pos + 1,
            pending: None,
        }
    }
}

/// One pull of the lexer: the token that an earlier pull kept, or else
/// the next one of the input.
pub open spec fn lex_step(s: Seq<char>, pos: int, pending: Option<TokenV>) -> Lexed {
    match pending {
        Some(t) => Lexed { item: Some(Ok(t)), pos, pending: None },
        None => scan(s, pos, false),
    }
}

/// A string literal ends after where it began, and inside the input.
pub proof fn lemma_scan_string_advances(s: Seq<char>, pos: int, buf: Seq<char>)
    requires
        0 <= pos <= s.len(),
    ensures
        pos <= scan_string(s, pos, buf).1 <= s.len(),
    decreases s.len() - pos,
{
    if pos < s.len() && s[pos] != '"' {
        if s[pos] == '\\' {
            if pos + 1 < s.len() {
                lemma_scan_string_advances(s, pos + 2, buf.push(s[pos + 1]));
            }
        } else {
            lemma_scan_string_advances(s, pos + 1, buf.push(s[pos]));
        }
    }
}

/// A symbol ends at or after the position it is read on from, and inside
/// the input.
pub proof fn lemma_scan_symbol_advances(s: Seq<char>, pos: int, buf: Seq<char>)
    requires
        0 <= pos <= s.len(),
    ensures
        pos <= scan_symbol(s, pos, buf).pos <= s.len(),
    decreases s.len() - pos,
{
    if pos < s.len() && !is_whitespace(s[pos]) && s[pos] != '(' && s[pos] != ')' && is_symbol_char(
        s[pos],
    ) {
        lemma_scan_symbol_advances(s, pos + 1, buf.push(s[pos]));
    }
}

/// A pull that yields something takes at least one character, and no pull
/// goes beyond the input.
pub proof fn lemma_scan_advances(s: Seq<char>, pos: int, in_comment: bool)
    requires
        0 <= pos <= s.len(),
    ensures
        pos <= scan(s, pos, in_comment).pos <= s.len(),
        scan(s, pos, in_comment).item is Some ==> pos < scan(s, pos, in_comment).pos,
    decreases s.len() - pos,
{
    if pos < s.len() {
        if in_comment {
            lemma_scan_advances(s, pos + 1, !is_ascii_control(s[pos]));
        } else if is_whitespace(s[pos]) {
            lemma_scan_advances(s, pos + 1, false);
        } else if s[pos] == '#' {
            lemma_scan_advances(s, pos + 1, true);
        } else if s[pos] == '(' || s[pos] == ')' {
        } else if s[pos] == '"' {
            lemma_scan_string_advances(s, pos + 1, Seq::empty());
        } else if is_symbol_char(s[pos]) {
            lemma_scan_symbol_advances(s, pos + 1, seq![s[pos]]);
        }
    }
}

/// Everything that the lexer yields from the state (`pos`, `pending`) on,
/// pull after pull, up to the end of the input.
pub open spec fn tokens(s: Seq<char>, pos: int, pending: Option<TokenV>) -> Seq<Lexeme>
    decreases s.len() - pos, (if pending is Some { 1int } else { 0int }),
{
    if pos < 0 || pos > s.len() {
        Seq::empty()
    } else {
        let l = lex_step(s, pos, pending);
        proof {
            lemma_scan_advances(s, pos, false);
        }
        match l.item {
            None => Seq::empty(),
            Some(t) => seq![t] + tokens(s, l.pos, l.pending),
        }
    }
}

/// Everything that the lexer yields for a whole text.
pub open spec fn tokens_of(s: Seq<char>) -> Seq<Lexeme> {
    tokens(s, 0, None)
}

/// A lexer over the characters of a script. It yields each token once.
#[derive(Debug)]
pub struct TokenStream {
    chars: Vec<char>,
    pos: usize,
    next_token: Option<Token>,
}

impl View for TokenStream {
    type V = Seq<Lexeme>;

    /// What the stream has still to yield.
    closed spec fn view(&self) -> Seq<Lexeme> {
        tokens(
            self.chars@,
            self.pos as int,
            match self.next_token {
                Some(t) => Some(t@),
                None => None,
            },
        )
    }
}

impl TokenStream {
    /// A lexer at the start of `text`.
    pub fn new(text: &str) -> (r: TokenStream)
        ensures
            r@ == tokens_of(text@),
    {
        TokenStream { chars: chars_of(text), pos: 0, next_token: None }
    }

    /// Reads a string literal from `self.pos` on, after its opening quote.
    fn read_string(&mut self) -> (r: Result<Token, Error>)
        requires
            old(self).pos <= old(self).chars.len(),
        ensures
            final(self).chars == old(self).chars,
            final(self).next_token == old(self).next_token,
            final(self).pos <= final(self).chars.len(),
            ({
                let (text, end) = scan_string(old(self).chars@, old(self).pos as int, Seq::empty());
                &&& final(self).pos == end
                &&& match text {
                    Some(t) => r is Ok && r->Ok_0@ == TokenV::String(t),
                    None => r is Err && r->Err_0@ == ErrorV::Tokenizer(msg_open_string()),
                }
            }),
    {
        let mut buf = String::new();
        let n = self.chars.len();
        let ghost start = self.pos as int;
        while self.pos < n
            invariant
                self.chars == old(self).chars,
                self.next_token == old(self).next_token,
                n == self.chars.len(),
                start == old(self).pos,
                start <= self.pos <= n,
                scan_string(self.chars@, start, Seq::empty()) == scan_string(
                    self.chars@,
                    self.pos as int,
                    buf@,
                ),
            decreases n - self.pos,
        {
            let c = self.chars[self.pos];
            if c == '"' {
                self.pos = self.pos + 1;
                return Ok(Token::String(buf));
            }
            if c == '\\' {
                if self.pos + 1 < n {
                    buf.push(self.chars[self.pos + 1]);
                    self.pos = self.pos + 2;
                } else {
                    self.pos = n;
                    return Err(Error::TokenizerError(String::from_str("EOF while reading string")));
                }
            } else {
                buf.push(c);
                self.pos = self.pos + 1;
            }
        }
        Err(Error::TokenizerError(String::from_str("EOF while reading string")))
    }

    /// Reads on in a symbol whose first character `first` has been taken.
    fn read_symbol(&mut self, first: char) -> (r: Result<Token, Error>)
        requires
            old(self).pos <= old(self).chars.len(),
            old(self).next_token is None,
        ensures
            final(self).chars == old(self).chars,
            final(self).pos <= final(self).chars.len(),
            ({
                let l = scan_symbol(old(self).chars@, old(self).pos as int, seq![first]);
                &&& final(self).pos == l.pos
                &&& Some(lexeme_view(r)) == l.item
                &&& match final(self).next_token {
                    Some(t) => l.pending == Some(t@),
                    None => l.pending is None,
                }
            }),
    {
        let mut buf = String::new();
        buf.push(first);
        assert(buf@ == seq![first]);
        let n = self.chars.len();
        let ghost start = self.pos as int;
        while self.pos < n
            invariant
                self.chars == old(self).chars,
                self.next_token is None,
                n == self.chars.len(),
                start == old(self).pos,
                start <= self.pos <= n,
                scan_symbol(self.chars@, start, seq![first]) == scan_symbol(
                    self.chars@,
                    self.pos as int,
                    buf@,
                ),
            decreases n - self.pos,
        {
            let c = self.chars[self.pos];
            self.pos = self.pos + 1;
            if whitespace(c) {
                return Ok(Token::Symbol(buf));
            } else if c == '(' {
                self.next_token = Some(Token::ListStart);
                return Ok(Token::Symbol(buf));
            } else if c == ')' {
                self.next_token = Some(Token::ListEnd);
                return Ok(Token::Symbol(buf));
            } else if c.is_frisp_symbol() {
                buf.push(c);
            } else {
                let mut msg = String::from_str("invalid char sym: ");
                msg.push(c);
                return Err(Error::TokenizerError(msg));
            }
        }
        Ok(Token::Symbol(buf))
    }

    /// The next token of the input, or the lexical error that stands in its
    /// place; `None` once the input is used up.
    pub fn next(&mut self) -> (r: Option<Result<Token, Error>>)
        ensures
            match r {
                None => old(self)@.len() == 0 && final(self)@.len() == 0,
                Some(t) => old(self)@.len() > 0 && lexeme_view(t) == old(self)@[0] && final(self)@
                    == old(self)@.drop_first(),
            },
    {
        if self.pos > self.chars.len() {
            return None;
        }
        if let Some(t) = self.next_token.take() {
            assert(old(self)@ =~= seq![Ok(t@)] + self@);
            return Some(Ok(t));
        }
        let n = self.chars.len();
        let ghost start = self.pos as int;
        let mut in_comment = false;
        proof {
            lemma_scan_advances(self.chars@, start, false);
        }
        while self.pos < n
            invariant
                self.chars == old(self).chars,
                self.next_token is None,
                n == self.chars.len(),
                start == old(self).pos,
                old(self).next_token is None,
                start <= self.pos <= n,
                scan(self.chars@, start, false) == scan(self.chars@, self.pos as int, in_comment),
            decreases n - self.pos,
        {
            let c = self.chars[self.pos];
            self.pos = self.pos + 1;
            if in_comment {
                in_comment = !ascii_control(c);
            } else if whitespace(c) {
            } else if c == '#' {
                in_comment = true;
            } else if c == '(' {
                assert(old(self)@ =~= seq![Ok(TokenV::ListStart)] + self@);
                return Some(Ok(Token::ListStart));
            } else if c == ')' {
                assert(old(self)@ =~= seq![Ok(TokenV::ListEnd)] + self@);
                return Some(Ok(Token::ListEnd));
            } else if c == '"' {
                let r = self.read_string();
                assert(old(self)@ =~= seq![lexeme_view(r)] + self@);
                return Some(r);
            } else if c.is_frisp_symbol() {
                let r = self.read_symbol(c);
                assert(old(self)@ =~= seq![lexeme_view(r)] + self@);
                return Some(r);
            } else {
                let mut msg = String::from_str("invalid token: '");
                msg.push(c);
                msg.push('\'');
                assert(old(self)@ =~= seq![Err(ErrorV::Tokenizer(msg@))] + self@);
                return Some(Err(Error::TokenizerError(msg)));
            }
        }
        None
    }
}

} // verus!
