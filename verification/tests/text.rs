use libfrisp::env::string::{lines, split};
use libfrisp::text::{
    ascii_control, chars_of, concat2, digit, float_text, has_point, int_chars, nat_chars,
    parse_int,
    reversed, same_text, strip_line_end, string_of, whitespace,
};
use libfrisp::token::FrispSymbolChar;

/// A small generator of numbers, the same on every run.
struct Numbers(u64);

impl Numbers {
    fn next(&mut self) -> u64 {
        self.0 = self.0.wrapping_mul(6364136223846793005).wrapping_add(1442695040888963407);
        self.0 >> 33
    }

    fn text(&mut self, alphabet: &[char], max_len: u64) -> String {
        let len = self.next() % (max_len + 1);
        (0..len).map(|_| alphabet[(self.next() % alphabet.len() as u64) as usize]).collect()
    }
}

fn chars(s: &str) -> Vec<char> {
    s.chars().collect()
}

#[test]
fn character_classes_are_those_of_the_standard_library() {
    for code in 0..=0x10ffffu32 {
        if let Some(c) = char::from_u32(code) {
            assert_eq!(whitespace(c), c.is_whitespace(), "{code:x}");
            assert_eq!(ascii_control(c), c.is_ascii_control(), "{code:x}");
            assert_eq!(digit(c), c.is_ascii_digit(), "{code:x}");
            let symbol = (c.is_ascii_alphanumeric() || c.is_ascii_punctuation())
                && c != '('
                && c != ')'
                && c != '"';
            assert_eq!(c.is_frisp_symbol(), symbol, "{code:x}");
        }
    }
}

#[test]
fn integers_are_read_as_the_standard_library_reads_them() {
    let mut numbers = Numbers(1);
    let alphabet = ['0', '1', '2', '5', '9', '+', '-', ' ', 'x', '.'];
    for _ in 0..20_000 {
        let text = numbers.text(&alphabet, 6);
        assert_eq!(parse_int(&chars(&text)), text.parse::<isize>().ok(), "{text:?}");
    }
    let digits = ['0', '1', '7', '9'];
    for _ in 0..2_000 {
        let text = numbers.text(&digits, 25);
        assert_eq!(parse_int(&chars(&text)), text.parse::<isize>().ok(), "{text:?}");
        let negative = format!("-{text}");
        assert_eq!(parse_int(&chars(&negative)), negative.parse::<isize>().ok(), "{negative:?}");
    }
    for value in [0, 1, -1, 10, -10, isize::MAX, isize::MIN, isize::MAX - 1, isize::MIN + 1] {
        let text = value.to_string();
        assert_eq!(parse_int(&chars(&text)), Some(value));
    }
    for text in ["9223372036854775808", "-9223372036854775809", "", "+", "-", "1-", "٣"] {
        assert_eq!(parse_int(&chars(text)), text.parse::<isize>().ok(), "{text:?}");
    }
}

#[test]
fn integers_are_written_in_decimal() {
    let mut numbers = Numbers(2);
    for value in [0, 1, -1, 9, 10, -10, 99, 100, isize::MAX, isize::MIN] {
        assert_eq!(int_chars(value), chars(&value.to_string()));
        assert_eq!(parse_int(&int_chars(value)), Some(value));
    }
    for _ in 0..5_000 {
        let value = ((numbers.next() << 33) ^ numbers.next()) as isize;
        assert_eq!(int_chars(value), chars(&value.to_string()));
        let natural = numbers.next() as usize;
        assert_eq!(nat_chars(natural), chars(&natural.to_string()));
    }
}

#[test]
fn float_texts_are_those_that_the_standard_library_reads() {
    let mut numbers = Numbers(3);
    let alphabet = ['0', '1', '9', '.', 'e', 'E', '+', '-', 'i', 'n', 'f', 'a', 'N', 'x', ' '];
    for _ in 0..50_000 {
        let text = numbers.text(&alphabet, 7);
        assert_eq!(float_text(&chars(&text)), text.parse::<f64>().is_ok(), "{text:?}");
    }
    for text in [
        "infinity", "Infinity", "INFINITY", "-infinity", "+inf", "nan", "-NaN", "infinit",
        "infinityy", "1.5e10", "1.5e-10", ".5e+3", "5.e3", ".e3", "e", ".", "", "+", "-.", "1e1.5",
    ] {
        assert_eq!(float_text(&chars(text)), text.parse::<f64>().is_ok(), "{text:?}");
    }
}

#[test]
fn splitting_is_that_of_the_standard_library() {
    let mut numbers = Numbers(4);
    let alphabet = ['a', 'b', ',', '-'];
    for _ in 0..20_000 {
        let text = numbers.text(&alphabet, 10);
        let sep = numbers.text(&alphabet, 3);
        let expected: Vec<String> = text.split(sep.as_str()).map(|s| s.to_string()).collect();
        assert_eq!(split(&text, &sep), expected, "{text:?} by {sep:?}");
    }
    assert_eq!(split("héé", "é"), vec!["h".to_string(), String::new(), String::new()]);
}

#[test]
fn lines_are_those_of_the_standard_library() {
    let mut numbers = Numbers(5);
    let alphabet = ['a', 'b', '\n', '\r', ' '];
    for _ in 0..20_000 {
        let text = numbers.text(&alphabet, 10);
        let expected: Vec<String> = text.lines().map(|s| s.to_string()).collect();
        assert_eq!(lines(&text), expected, "{text:?}");
    }
}

#[test]
fn the_line_end_is_stripped() {
    assert_eq!(strip_line_end("abc\n"), "abc");
    assert_eq!(strip_line_end("abc\r\n"), "abc");
    assert_eq!(strip_line_end("abc\n\n"), "abc");
    assert_eq!(strip_line_end("abc \n"), "abc ");
    assert_eq!(strip_line_end("a\nb"), "a\nb");
    assert_eq!(strip_line_end("\n"), "");
    assert_eq!(strip_line_end(""), "");
}

#[test]
fn texts_and_their_characters() {
    assert_eq!(chars_of("héllo"), vec!['h', 'é', 'l', 'l', 'o']);
    assert_eq!(string_of(&chars("héllo")), "héllo");
    assert_eq!(concat2("ab", "cd"), "abcd");
    assert!(same_text(&"ab".to_string(), &"ab".to_string()));
    assert!(!same_text(&"ab".to_string(), &"abc".to_string()));
    assert!(has_point(&chars("1.5")));
    assert!(has_point(&chars(".")));
    assert!(!has_point(&chars("1e5")));
    assert!(!has_point(&chars("")));
    assert_eq!(reversed(vec![1, 2, 3]), vec![3, 2, 1]);
    assert_eq!(reversed(Vec::<u8>::new()), Vec::<u8>::new());
}
