use chisel::lexer::{Lexer, PackedToken, Token};
use chisel::parser_coords::ParserCoords;
use chisel::parser_errors::{ParserErrorCode, ParserResult, ParserStage};
use chisel::string_table::StringTable;

fn lexer_over(text: &str) -> Lexer {
    Lexer::new(StringTable::new(), text.as_bytes().to_vec())
}

#[test]
fn should_parse_basic_tokens() {
    let mut lexer = lexer_over("{}[],:");
    let mut tokens: Vec<Token> = vec![];
    let mut coords: Vec<(ParserCoords, Option<ParserCoords>)> = vec![];
    for _ in 1..=7 {
        let token = lexer.consume().unwrap();
        tokens.push(token.token);
        coords.push((token.start, token.end));
    }
    assert_eq!(
        tokens,
        [
            Token::StartObject,
            Token::EndObject,
            Token::StartArray,
            Token::EndArray,
            Token::Comma,
            Token::Colon,
            Token::EndOfInput
        ]
    );
}

#[test]
fn should_parse_null_and_booleans() {
    let mut lexer = lexer_over("null true    falsetruefalse");
    let mut tokens: Vec<Token> = vec![];
    let mut coords: Vec<(ParserCoords, Option<ParserCoords>)> = vec![];
    for _ in 1..=6 {
        let token = lexer.consume().unwrap();
        tokens.push(token.token);
        coords.push((token.start, token.end));
    }
    assert_eq!(
        tokens,
        [
            Token::Null,
            Token::Bool(true),
            Token::Bool(false),
            Token::Bool(true),
            Token::Bool(false),
            Token::EndOfInput
        ]
    );
}

#[test]
fn should_correctly_report_errors_for_booleans() {
    let mut lexer = lexer_over("true farse");
    let mut results: Vec<ParserResult<PackedToken>> = vec![];
    for _ in 1..=2 {
        results.push(lexer.consume());
    }
    assert!(results[0].is_ok());
    assert!(results[1].is_err());
    println!("Parse error: {:?}", results[1]);
}

#[test]
fn boolean_mismatch_fails_with_match_failed() {
    let mut lexer = lexer_over("true farse");
    assert_eq!(lexer.consume().unwrap().token, Token::Bool(true));
    let err = lexer.consume().unwrap_err();
    assert_eq!(err.stage, ParserStage::Lexer);
    assert_eq!(err.code, ParserErrorCode::MatchFailed);
    // the lookahead-mismatch error is chained as the cause
    let inner = err.inner.as_ref().unwrap();
    assert_eq!(inner.stage, ParserStage::Lexer);
    assert_eq!(inner.code, ParserErrorCode::InvalidLexeme);
    assert!(inner.inner.is_none());
}

#[test]
fn string_with_escaped_quote_keeps_raw_payload() {
    // source text: "a\"b" — six characters, quotes and backslash preserved
    let mut lexer = lexer_over("\"a\\\"b\"");
    let token = lexer.consume().unwrap();
    assert_eq!(token.token, Token::Str("\"a\\\"b\"".to_string()));
    assert_eq!(lexer.consume().unwrap().token, Token::EndOfInput);
}

#[test]
fn string_keeps_escape_sequences_undecoded() {
    let mut lexer = lexer_over("\"line\\none\\ttwo\\u0041\"");
    let token = lexer.consume().unwrap();
    assert_eq!(token.token, Token::Str("\"line\\none\\ttwo\\u0041\"".to_string()));
}

#[test]
fn string_with_raw_newline_fails_with_end_of_input_code() {
    let mut lexer = lexer_over("\"one\ntwo\"");
    let err = lexer.consume().unwrap_err();
    assert_eq!(err.code, ParserErrorCode::EndOfInput);
}

#[test]
fn truncated_string_fails_with_end_of_input_code() {
    let mut lexer = lexer_over("\"never closed");
    let err = lexer.consume().unwrap_err();
    assert_eq!(err.code, ParserErrorCode::EndOfInput);
}

#[test]
fn bad_escape_fails_with_invalid_character() {
    let mut lexer = lexer_over("\"oops\\q\"");
    let err = lexer.consume().unwrap_err();
    assert_eq!(err.code, ParserErrorCode::InvalidCharacter);
}

#[test]
fn bad_hex_escape_fails_with_invalid_character() {
    let mut lexer = lexer_over("\"\\u00G1\"");
    let err = lexer.consume().unwrap_err();
    assert_eq!(err.code, ParserErrorCode::InvalidCharacter);
}

#[test]
fn numbers_follow_the_json_grammar() {
    for text in ["0", "-0", "12", "-12.5", "0.25", "1e6", "1E+6", "-2.5e-10"] {
        let mut lexer = lexer_over(text);
        let token = lexer.consume().unwrap();
        assert_eq!(token.token, Token::Num(text.to_string()));
        assert_eq!(lexer.consume().unwrap().token, Token::EndOfInput);
    }
}

#[test]
fn malformed_numbers_fail_with_match_failed() {
    for text in ["-", "01", "1.", "1e", "1e+", "--1", "1.2.3"] {
        let mut lexer = lexer_over(text);
        let err = lexer.consume().unwrap_err();
        assert_eq!(err.code, ParserErrorCode::MatchFailed, "input {:?}", text);
    }
}

#[test]
fn numbers_stop_at_whitespace_and_punctuation() {
    let mut lexer = lexer_over("1 2,3");
    assert_eq!(lexer.consume().unwrap().token, Token::Num("1".to_string()));
    assert_eq!(lexer.consume().unwrap().token, Token::Num("2".to_string()));
    assert_eq!(lexer.consume().unwrap().token, Token::Comma);
    assert_eq!(lexer.consume().unwrap().token, Token::Num("3".to_string()));
    assert_eq!(lexer.consume().unwrap().token, Token::EndOfInput);
}

#[test]
fn other_alphabetics_fail_with_invalid_character() {
    let mut lexer = lexer_over("xyz");
    let err = lexer.consume().unwrap_err();
    assert_eq!(err.code, ParserErrorCode::InvalidCharacter);
}

#[test]
fn stray_single_quote_fails_with_invalid_lexeme() {
    let mut lexer = lexer_over("'hello'");
    let err = lexer.consume().unwrap_err();
    assert_eq!(err.code, ParserErrorCode::InvalidLexeme);
}

#[test]
fn end_of_input_token_is_idempotent() {
    let mut lexer = lexer_over("");
    assert_eq!(lexer.consume().unwrap().token, Token::EndOfInput);
    assert_eq!(lexer.consume().unwrap().token, Token::EndOfInput);
    assert_eq!(lexer.consume().unwrap().token, Token::EndOfInput);
}

#[test]
fn bad_bytes_surface_as_scanner_failure() {
    let mut lexer = Lexer::new(StringTable::new(), vec![b't', b'r', 0xFF]);
    let err = lexer.consume().unwrap_err();
    assert_eq!(err.code, ParserErrorCode::MatchFailed);
    let mut lexer = Lexer::new(StringTable::new(), vec![0xFF]);
    let err = lexer.consume().unwrap_err();
    assert_eq!(err.code, ParserErrorCode::ScannerFailure);
    // the raw scanner failure and its stream-stage cause are chained
    let inner = err.inner.as_ref().unwrap();
    assert_eq!(inner.stage, ParserStage::Scanner);
    assert_eq!(inner.code, ParserErrorCode::StreamFailure);
    let cause = inner.inner.as_ref().unwrap();
    assert_eq!(cause.stage, ParserStage::Stream);
    assert_eq!(cause.code, ParserErrorCode::InvalidByteSequence);
}
