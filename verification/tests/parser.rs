use libfrisp::ast::{parse_script, AstNode, AstNodeStream};
use libfrisp::token::{FrispSymbolChar, Token, TokenStream};
use libfrisp::value::Value;
use libfrisp::Error;

fn parse(text: &str) -> Vec<Result<AstNode, Error>> {
    let mut stream = AstNodeStream::new(TokenStream::new(text));
    let mut out = Vec::new();
    while let Some(n) = stream.next() {
        out.push(n);
    }
    out
}

fn lex(text: &str) -> Vec<Result<Token, Error>> {
    let mut stream = TokenStream::new(text);
    let mut out = Vec::new();
    while let Some(t) = stream.next() {
        out.push(t);
    }
    out
}

fn sym(s: &str) -> AstNode {
    AstNode::Symbol(s.to_string())
}

fn num(i: isize) -> AstNode {
    AstNode::Value(Value::Integer(i))
}

fn text(s: &str) -> AstNode {
    AstNode::Value(Value::String(s.to_string()))
}

fn list(items: Vec<AstNode>) -> AstNode {
    AstNode::List(items)
}

#[test]
fn parses_nested_forms_in_order() {
    assert_eq!(
        parse("(define r 10) (* r (+ r 1)) x"),
        vec![
            Ok(list(vec![sym("define"), sym("r"), num(10)])),
            Ok(list(vec![sym("*"), sym("r"), list(vec![sym("+"), sym("r"), num(1)])])),
            Ok(sym("x")),
        ]
    );
}

#[test]
fn parses_empty_input_and_empty_lists() {
    assert_eq!(parse(""), vec![]);
    assert_eq!(parse("   # only a comment"), vec![]);
    assert_eq!(parse("()"), vec![Ok(list(vec![]))]);
    assert_eq!(parse("(())"), vec![Ok(list(vec![list(vec![])]))]);
}

#[test]
fn rendering_and_parsing_again_gives_the_same_forms() {
    for source in [
        "(define fib (lambda (n) (if (< n 2) n (+ (fib (- n 1)) (fib (- n 2))))))",
        "(print \"a \\\"quoted\\\" \\\\ string\" -12 () (1.5 x))",
        "x",
        "\"s\"",
        "((a) ((b)) (((c))))",
    ] {
        let first = parse(source);
        assert!(first.iter().all(|n| n.is_ok()));
        let rendered: Vec<String> =
            first.iter().map(|n| n.as_ref().unwrap().to_string()).collect();
        let second = parse(&rendered.join(" "));
        assert_eq!(first, second);
    }
}

#[test]
fn renders_forms_as_scripts_write_them() {
    let node = list(vec![sym("f"), num(-3), text("a\"b"), list(vec![]), AstNode::Float("1.5".to_string())]);
    assert_eq!(node.to_string(), "(f -3 \"a\\\"b\" () 1.5)");
}

#[test]
fn unclosed_list_is_a_parse_error() {
    assert_eq!(
        parse("(a (b c)"),
        vec![Err(Error::ParserError("reached end of stream without end of list".to_string()))]
    );
    assert_eq!(
        parse("x (a"),
        vec![
            Ok(sym("x")),
            Err(Error::ParserError("reached end of stream without end of list".to_string()))
        ]
    );
}

#[test]
fn stray_close_is_a_parse_error() {
    assert_eq!(
        parse(")"),
        vec![Err(Error::ParserError("list end without current list".to_string()))]
    );
    assert_eq!(
        parse("(a))"),
        vec![
            Ok(list(vec![sym("a")])),
            Err(Error::ParserError("list end without current list".to_string()))
        ]
    );
}

#[test]
fn lexical_errors_pass_through_the_parser() {
    assert_eq!(
        parse("(a \"bc"),
        vec![
            Err(Error::TokenizerError("EOF while reading string".to_string())),
        ]
    );
}

#[test]
fn classifies_bare_tokens() {
    assert_eq!(AstNode::parse_raw_symbol("12"), num(12));
    assert_eq!(AstNode::parse_raw_symbol("-12"), num(-12));
    assert_eq!(AstNode::parse_raw_symbol("+12"), num(12));
    assert_eq!(AstNode::parse_raw_symbol("007"), num(7));
    assert_eq!(
        AstNode::parse_raw_symbol(&format!("{}", isize::MAX)),
        num(isize::MAX)
    );
    assert_eq!(
        AstNode::parse_raw_symbol(&format!("{}", isize::MIN)),
        num(isize::MIN)
    );
    for float in ["1.5", "-1.5", "+.5", "5.", "1.5e+10", "1.e5", ".5E-3", "0.0", "-0.", "12.25e2"] {
        assert_eq!(AstNode::parse_raw_symbol(float), AstNode::Float(float.to_string()));
        assert!(float.parse::<f64>().is_ok());
    }
    for symbol in [
        "x", "+", "-", ".", "e5", "1e", "1e+", "1.5.2", "--1", "1x", "in", "infinit", "nan1",
        "1_000", "0x10", "1.e", "+-1", "nan", "NaN", "inf", "-inf", "infinity", "Infinity",
        "1e5", "1E-5", "99999999999999999999999999", "..", "-.", "1.5x",
    ] {
        assert_eq!(AstNode::parse_raw_symbol(symbol), sym(symbol));
    }
}

#[test]
fn names_that_read_as_floats_without_a_point_are_symbols() {
    assert_eq!(
        parse("(define inf 5)"),
        vec![Ok(list(vec![sym("define"), sym("inf"), num(5)]))]
    );
    assert_eq!(parse("nan 1e5"), vec![Ok(sym("nan")), Ok(sym("1e5"))]);
}

#[test]
fn a_script_is_read_whole_or_not_at_all() {
    assert_eq!(
        parse_script("(a) b \"c\" 4"),
        Ok(vec![list(vec![sym("a")]), sym("b"), text("c"), num(4)])
    );
    assert_eq!(parse_script(""), Ok(vec![]));
    assert_eq!(
        parse_script("(a) (b"),
        Err(Error::ParserError("reached end of stream without end of list".to_string()))
    );
    assert_eq!(
        parse_script("(a) ) (b)"),
        Err(Error::ParserError("list end without current list".to_string()))
    );
    assert_eq!(
        parse_script("(a) \"b"),
        Err(Error::TokenizerError("EOF while reading string".to_string()))
    );
}

#[test]
fn node_accessors() {
    assert_eq!(list(vec![num(1)]).try_to_list(), Ok(vec![num(1)]));
    assert_eq!(sym("a").try_to_list(), Err(sym("a")));
    assert_eq!(sym("a").try_to_symbol(), Ok("a".to_string()));
    assert_eq!(num(1).try_to_symbol(), Err(num(1)));
    assert_eq!(num(1).try_to_value(), Ok(Value::Integer(1)));
    assert_eq!(sym("a").try_to_value(), Err(sym("a")));
    assert_eq!(AstNode::default(), list(vec![]));
    assert!(list(vec![num(1), sym("a")]).equals(&list(vec![num(1), sym("a")]).clone()));
    assert!(!list(vec![num(1)]).equals(&list(vec![num(2)])));
}

#[test]
fn lexes_strings_with_escapes() {
    assert_eq!(
        lex("\"a\\\"b\\\\c\\n\""),
        vec![Ok(Token::String("a\"b\\cn".to_string()))]
    );
    assert_eq!(lex("\"\""), vec![Ok(Token::String(String::new()))]);
    assert_eq!(
        lex("\"abc"),
        vec![Err(Error::TokenizerError("EOF while reading string".to_string()))]
    );
    assert_eq!(
        lex("\"abc\\"),
        vec![Err(Error::TokenizerError("EOF while reading string".to_string()))]
    );
}

#[test]
fn lexes_symbols_up_to_whitespace_or_parenthesis() {
    assert_eq!(
        lex("ab(cd)ef gh"),
        vec![
            Ok(Token::Symbol("ab".to_string())),
            Ok(Token::ListStart),
            Ok(Token::Symbol("cd".to_string())),
            Ok(Token::ListEnd),
            Ok(Token::Symbol("ef".to_string())),
            Ok(Token::Symbol("gh".to_string())),
        ]
    );
    assert_eq!(lex("a#b"), vec![Ok(Token::Symbol("a#b".to_string()))]);
}

#[test]
fn skips_comments_up_to_a_control_character() {
    assert_eq!(
        lex("# a comment (\n x # another\ty"),
        vec![Ok(Token::Symbol("x".to_string())), Ok(Token::Symbol("y".to_string()))]
    );
}

#[test]
fn reports_characters_that_are_no_tokens() {
    assert_eq!(
        lex("\u{e9} x"),
        vec![
            Err(Error::TokenizerError("invalid token: '\u{e9}'".to_string())),
            Ok(Token::Symbol("x".to_string()))
        ]
    );
    assert_eq!(
        lex("ab\u{e9} x"),
        vec![
            Err(Error::TokenizerError("invalid char sym: \u{e9}".to_string())),
            Ok(Token::Symbol("x".to_string()))
        ]
    );
    assert_eq!(
        lex("ab\"c"),
        vec![
            Err(Error::TokenizerError("invalid char sym: \"".to_string())),
            Ok(Token::Symbol("c".to_string()))
        ]
    );
}

#[test]
fn symbol_characters() {
    for c in ['a', 'Z', '0', '+', '-', '*', '/', '<', '=', '#', '!', '~', '\'', '\\', '.'] {
        assert!(c.is_frisp_symbol());
    }
    for c in ['(', ')', '"', ' ', '\n', '\u{e9}', '\u{7f}'] {
        assert!(!c.is_frisp_symbol());
    }
}
