use sorth::byte_buffer::ByteBuffer;
use sorth::tokenizing::{Token, is_number, to_numeric, tokenize_from_source};

fn words_of(source: &str) -> Vec<String> {
    tokenize_from_source("<test>", source)
        .unwrap()
        .iter()
        .map(|t| match t {
            Token::Number(_, n) => format!("#{}", n),
            Token::String(_, s) => format!("\"{}", s),
            Token::Word(_, w) => w.clone(),
        })
        .collect()
}

#[test]
fn atoms_split_on_whitespace() {
    assert_eq!(words_of("  a b\tc\r\nd  "), vec!["a", "b", "c", "d"]);
}

#[test]
fn numbers_parse_in_all_bases() {
    assert_eq!(words_of("42 -7 0x10 0b101 1_000"), vec![
        "#42", "#-7", "#16", "#5", "#1000"
    ]);
}

#[test]
fn numeric_looking_words_fall_back_to_words() {
    // These satisfy the numeric look but do not parse, so they stay words.
    assert_eq!(words_of("0x 1e5 - abc"), vec!["0x", "1e5", "-", "abc"]);
}

#[test]
fn is_number_checks_the_look_not_the_value() {
    assert!(is_number("0x"));
    assert!(is_number("123"));
    assert!(is_number("de_ad"));
    assert!(!is_number("hello"));
    assert!(!is_number(""));
}

#[test]
fn to_numeric_parses_or_declines() {
    assert_eq!(to_numeric("123"), Some(123));
    assert_eq!(to_numeric("-123"), Some(-123));
    assert_eq!(to_numeric("0xff"), Some(255));
    assert_eq!(to_numeric("0b1_01"), Some(5));
    assert_eq!(to_numeric("0x"), None);
    assert_eq!(to_numeric("1.5"), None);
    assert_eq!(to_numeric("9223372036854775807"), Some(i64::MAX));
    assert_eq!(to_numeric("9223372036854775808"), None);
    assert_eq!(to_numeric("-9223372036854775808"), Some(i64::MIN));
}

#[test]
fn string_literals_capture_text_and_escapes() {
    assert_eq!(words_of("\"hello world\""), vec!["\"hello world"]);
    assert_eq!(words_of("\"a\\tb\\065\""), vec!["\"a\tbA"]);
}

#[test]
fn unterminated_string_is_an_error() {
    assert!(tokenize_from_source("<test>", "\"open").is_err());
    assert!(tokenize_from_source("<test>", "\"no\nnewlines\"").is_err());
}

#[test]
fn multi_line_strings_keep_their_shape() {
    let source = "\"*\n    first\n    second\n*\"";
    let tokens = tokenize_from_source("<test>", source).unwrap();
    assert_eq!(tokens.len(), 1);
    match &tokens[0] {
        Token::String(_, text) => assert_eq!(text, "first\nsecond\n"),
        _ => panic!("expected a string token"),
    }
}

#[test]
fn token_locations_count_lines_and_columns() {
    let tokens = tokenize_from_source("here", "a\n  b").unwrap();
    assert_eq!(tokens[0].location().line(), 1);
    assert_eq!(tokens[0].location().column(), 1);
    assert_eq!(tokens[1].location().line(), 2);
    assert_eq!(tokens[1].location().column(), 3);
}

#[test]
fn buffer_integers_roundtrip_little_endian() {
    let mut buffer = ByteBuffer::new(16);
    buffer.write_int(4, -2);
    buffer.write_int(2, 0xabc);
    buffer.set_position(0);
    assert_eq!(buffer.read_int(4, true), -2);
    assert_eq!(buffer.read_int(2, false), 0xabc);
    buffer.set_position(0);
    assert_eq!(buffer.read_int(1, false), 0xfe);
}

#[test]
fn buffer_strings_truncate_and_pad() {
    let mut buffer = ByteBuffer::new(8);
    buffer.write_string(5, "hi");
    buffer.set_position(0);
    assert_eq!(buffer.read_string(5), "hi");
    buffer.set_position(0);
    buffer.write_string(3, "abcdef");
    buffer.set_position(0);
    assert_eq!(buffer.read_string(3), "abc");
}

#[test]
fn buffer_resize_pads_and_clamps() {
    let mut buffer = ByteBuffer::new(2);
    buffer.write_int(2, -1);
    buffer.resize(4);
    buffer.set_position(0);
    assert_eq!(buffer.read_int(4, false), 0xffff);
    buffer.resize(1);
    assert_eq!(buffer.position(), 0);
}
