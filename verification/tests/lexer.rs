use libfrisp::token::{Token, TokenStream};
use libfrisp::Error;

fn lex(text: &str) -> Vec<Result<Token, Error>> {
    let mut stream = TokenStream::new(text);
    let mut out = Vec::new();
    while let Some(t) = stream.next() {
        out.push(t);
    }
    out
}

fn sym(s: &str) -> Result<Token, Error> {
    Ok(Token::Symbol(s.to_string()))
}

#[test]
fn token_it_works() {
    let mut stream = TokenStream::new("(cdr(1)(2)(\"asd\"))");

    while let Some(t) = stream.next() {
        println!("{t:?}");
    }
}

#[test]
fn lexes_nested_lists_without_spaces() {
    assert_eq!(
        lex("(cdr(1)(2)(\"asd\"))"),
        vec![
            Ok(Token::ListStart),
            sym("cdr"),
            Ok(Token::ListStart),
            sym("1"),
            Ok(Token::ListEnd),
            Ok(Token::ListStart),
            sym("2"),
            Ok(Token::ListEnd),
            Ok(Token::ListStart),
            Ok(Token::String("asd".to_string())),
            Ok(Token::ListEnd),
            Ok(Token::ListEnd),
        ]
    );
}
