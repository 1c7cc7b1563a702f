use tray::lexer::{parse_one, parse_tokens, LexerError, Token};

fn lex(s: &str) -> Result<Vec<Token>, LexerError> {
    parse_tokens(s.to_string())
}

#[test]
fn nine_digits_is_i32() {
    assert_eq!(lex("123456789").unwrap(), vec![Token::I32(123456789)]);
}

#[test]
fn ten_digits_is_i64() {
    assert_eq!(lex("1234567890").unwrap(), vec![Token::I64(1234567890)]);
}

#[test]
fn eighteen_digits_is_i64() {
    assert_eq!(
        lex("999999999999999999").unwrap(),
        vec![Token::I64(999999999999999999)]
    );
}

#[test]
fn nineteen_digits_is_i128() {
    assert_eq!(
        lex("1000000000000000000000").unwrap(),
        vec![Token::I128(1000000000000000000000)]
    );
}

#[test]
fn one_digit_is_i32() {
    assert_eq!(lex("7").unwrap(), vec![Token::I32(7)]);
}

#[test]
fn underscore_is_group_separator() {
    assert_eq!(lex("1_000").unwrap(), vec![Token::I32(1000)]);
}

#[test]
fn huge_integer_literal_fails() {
    // 39 nines exceed the 128-bit signed range.
    let s = "9".repeat(39);
    match lex(&s) {
        Err(LexerError::ParsingError {
            start_position,
            end_position,
            ..
        }) => {
            assert_eq!(start_position, 0);
            assert_eq!(end_position, 39);
        }
        other => panic!("expected a parsing error, got {:?}", other),
    }
}

#[test]
fn float_with_few_digits_is_f32() {
    assert_eq!(lex("3.14").unwrap(), vec![Token::F32(3.14f32.to_bits())]);
}

#[test]
fn float_with_many_digits_is_f64() {
    assert_eq!(
        lex("1234567890.5").unwrap(),
        vec![Token::F64(1234567890.5f64.to_bits())]
    );
}

#[test]
fn float_kind_counts_digits_not_characters() {
    // Nine digits and a point: still the 32-bit floating kind.
    assert_eq!(
        lex("12345678.9").unwrap(),
        vec![Token::F32(12345678.9f32.to_bits())]
    );
}

#[test]
fn trailing_point_is_allowed() {
    assert_eq!(lex("123.").unwrap(), vec![Token::F32(123.0f32.to_bits())]);
}

#[test]
fn underscore_after_point_fails() {
    match lex("1._2") {
        Err(LexerError::ParsingError {
            start_position,
            end_position,
            ..
        }) => {
            assert_eq!(start_position, 0);
            assert_eq!(end_position, 3);
        }
        other => panic!("expected a parsing error, got {:?}", other),
    }
}

#[test]
fn second_point_fails() {
    match lex("1.2.3") {
        Err(LexerError::ParsingError {
            start_position,
            end_position,
            ..
        }) => {
            assert_eq!(start_position, 0);
            assert_eq!(end_position, 4);
        }
        other => panic!("expected a parsing error, got {:?}", other),
    }
}

#[test]
fn operators_and_whitespace() {
    assert_eq!(
        lex("1 + 2\t* (3) / 4 - 5").unwrap(),
        vec![
            Token::I32(1),
            Token::Plus,
            Token::I32(2),
            Token::Multiply,
            Token::LParenthesis,
            Token::I32(3),
            Token::RParenthesis,
            Token::Divide,
            Token::I32(4),
            Token::Minus,
            Token::I32(5),
        ]
    );
}

#[test]
fn unrecognized_character_fails_at_its_index() {
    match lex("1 @") {
        Err(LexerError::IllegalCharacter { position, message }) => {
            assert_eq!(position, 2);
            assert_eq!(message, "Unrecognized character @");
        }
        other => panic!("expected an illegal character, got {:?}", other),
    }
}

#[test]
fn string_literal_verbatim() {
    assert_eq!(
        lex("\"hello world\"").unwrap(),
        vec![Token::String("hello world".to_string())]
    );
}

#[test]
fn string_with_escapes() {
    assert_eq!(
        lex("\"a\\nb\\tc\\\\d\\\"e\\0f\"").unwrap(),
        vec![Token::String("a\nb\tc\\d\"e\0f".to_string())]
    );
}

#[test]
fn unterminated_string_spans_to_end_of_input() {
    match lex("\"abc") {
        Err(LexerError::ParsingError {
            start_position,
            end_position,
            ..
        }) => {
            assert_eq!(start_position, 0);
            assert_eq!(end_position, 4);
        }
        other => panic!("expected a parsing error, got {:?}", other),
    }
}

#[test]
fn char_literal_plain() {
    assert_eq!(lex("'a'").unwrap(), vec![Token::Char('a')]);
}

#[test]
fn char_hex_escape_decodes() {
    assert_eq!(lex("'\\x41'").unwrap(), vec![Token::Char('A')]);
}

#[test]
fn char_unicode_escape_decodes() {
    assert_eq!(lex("'\\u{1F600}'").unwrap(), vec![Token::Char('\u{1F600}')]);
}

#[test]
fn char_hex_escape_above_7f_fails() {
    match lex("'\\x80'") {
        Err(LexerError::ParsingError {
            start_position,
            end_position,
            ..
        }) => {
            assert_eq!(start_position, 1);
            assert_eq!(end_position, 5);
        }
        other => panic!("expected a parsing error, got {:?}", other),
    }
}

#[test]
fn char_unicode_escape_surrogate_fails() {
    assert!(matches!(lex("'\\u{D800}'"), Err(LexerError::ParsingError { .. })));
}

#[test]
fn char_unicode_escape_seven_digits_fails() {
    assert!(matches!(lex("'\\u{1234567}'"), Err(LexerError::ParsingError { .. })));
}

#[test]
fn char_unicode_escape_empty_fails() {
    assert!(matches!(lex("'\\u{}'"), Err(LexerError::ParsingError { .. })));
}

#[test]
fn char_bad_escape_fails_with_named_character() {
    match lex("'\\q'") {
        Err(LexerError::ParsingError { message, .. }) => {
            assert!(message.starts_with("Syntax error: Character q"));
        }
        other => panic!("expected a parsing error, got {:?}", other),
    }
}

#[test]
fn empty_char_literal_fails() {
    match lex("''") {
        Err(LexerError::ParsingError {
            start_position,
            end_position,
            ..
        }) => {
            assert_eq!(start_position, 0);
            assert_eq!(end_position, 2);
        }
        other => panic!("expected a parsing error, got {:?}", other),
    }
}

#[test]
fn unclosed_char_literal_fails() {
    assert!(matches!(lex("'ab'"), Err(LexerError::ParsingError { .. })));
}

#[test]
fn parse_one_matches_parse_tokens() {
    assert_eq!(
        parse_one("1+2".to_string()).unwrap(),
        vec![Token::I32(1), Token::Plus, Token::I32(2)]
    );
}

#[test]
fn empty_line_lexes_to_nothing() {
    assert_eq!(lex("").unwrap(), Vec::<Token>::new());
}

#[test]
fn arrow_error_renders_caret_span() {
    let err = lex("\"abc").unwrap_err();
    let rendered = err.arrow_error("\"abc".to_string());
    let expected = format!(
        "{}\n\"abc\n^^^^",
        "Syntax Error: Found end of file while trying to parse string literal. \
         Make sure to close the quotes or remove the trailing `\"`"
    );
    assert_eq!(rendered, expected);
}

#[test]
fn arrow_error_single_caret_for_illegal_character() {
    let err = lex("1 @").unwrap_err();
    let rendered = err.arrow_error("1 @".to_string());
    assert_eq!(rendered, "Unrecognized character @\n1 @\n  ^");
}

#[test]
fn unicode_escape_opener_is_not_checked() {
    // The character after `\u` is consumed without being checked to be `{`:
    // any single character may stand there, the digits and `}` still count.
    assert_eq!(lex("'\\uX41}'").unwrap(), vec![Token::Char('A')]);
}

#[test]
fn nineteen_digit_i64_max_is_still_i128() {
    // Digit count alone selects the kind: 19 digits are the 128-bit kind
    // even when the value would fit 64 bits.
    assert_eq!(
        lex("9223372036854775807").unwrap(),
        vec![Token::I128(9223372036854775807)]
    );
}

#[test]
fn one_hex_digit_escape_fails_with_short_span() {
    match lex("'\\x4") {
        Err(LexerError::ParsingError {
            start_position,
            end_position,
            ..
        }) => {
            assert_eq!(start_position, 1);
            assert_eq!(end_position, 4);
        }
        other => panic!("expected a parsing error, got {:?}", other),
    }
}
