use chisel::parser_errors::{ParserErrorCode, ParserStage};
use chisel::scanner::{Lexeme, Scanner, ScannerMode};

#[test]
fn should_handle_empty_input() {
    let buffer: Vec<u8> = "".as_bytes().to_vec();
    let mut scanner = Scanner::new(buffer);
    let eoi = scanner.with_mode(ScannerMode::IgnoreWhitespace).consume().unwrap();
    assert_eq!(eoi.lexeme, Lexeme::EndOfInput);
}

#[test]
fn should_handle_general_chars() {
    let buffer: Vec<u8> = "{   } [  ]+  - : ,   ".as_bytes().to_vec();
    let mut scanner = Scanner::new(buffer);
    let mut lexemes: Vec<Lexeme> = vec![];

    while let Ok(lex) = scanner.with_mode(ScannerMode::IgnoreWhitespace).consume() {
        lexemes.push(lex.lexeme);
        if lex.lexeme == Lexeme::EndOfInput {
            break;
        }
    }

    assert_eq!(
        lexemes,
        vec![
            Lexeme::LeftBrace,
            Lexeme::RightBrace,
            Lexeme::LeftBracket,
            Lexeme::RightBracket,
            Lexeme::Plus,
            Lexeme::Minus,
            Lexeme::Colon,
            Lexeme::Comma,
            Lexeme::EndOfInput,
        ]
    );
}

#[test]
fn should_report_correct_lookahead_coords() {
    let buffer: Vec<u8> = "123456789".as_bytes().to_vec();
    let mut scanner = Scanner::new(buffer);
    for index in 1..=4 {
        let _ = scanner.lookahead(index);
    }
    assert_eq!(scanner.back_coords().column, 4);
    let lex = scanner.consume().unwrap();
    assert_eq!(lex.coords.column, 1);
}

#[test]
fn should_handle_whitespace_chars() {
    let buffer: Vec<u8> = " {  }   \n[]+-:,   ".as_bytes().to_vec();
    let mut scanner = Scanner::new(buffer);
    let mut lexemes: Vec<Lexeme> = vec![];

    while let Ok(lex) = scanner.with_mode(ScannerMode::ProduceWhitespace).consume() {
        lexemes.push(lex.lexeme);
        if lex.lexeme == Lexeme::EndOfInput {
            break;
        }
    }

    assert_eq!(
        lexemes,
        vec![
            Lexeme::Whitespace(' '),
            Lexeme::LeftBrace,
            Lexeme::Whitespace(' '),
            Lexeme::Whitespace(' '),
            Lexeme::RightBrace,
            Lexeme::Whitespace(' '),
            Lexeme::Whitespace(' '),
            Lexeme::Whitespace(' '),
            Lexeme::NewLine,
            Lexeme::LeftBracket,
            Lexeme::RightBracket,
            Lexeme::Plus,
            Lexeme::Minus,
            Lexeme::Colon,
            Lexeme::Comma,
            Lexeme::Whitespace(' '),
            Lexeme::Whitespace(' '),
            Lexeme::Whitespace(' '),
            Lexeme::EndOfInput,
        ]
    );
}

#[test]
fn should_handle_special_chars() {
    let buffer: Vec<u8> = "\\\"\' \t".as_bytes().to_vec();
    let mut scanner = Scanner::new(buffer);
    let mut lexemes: Vec<Lexeme> = vec![];
    while let Ok(lex) = scanner.with_mode(ScannerMode::ProduceWhitespace).consume() {
        lexemes.push(lex.lexeme);
        if lex.lexeme == Lexeme::EndOfInput {
            break;
        }
    }
    assert_eq!(
        lexemes,
        vec![
            Lexeme::Escape,
            Lexeme::DoubleQuote,
            Lexeme::SingleQuote,
            Lexeme::Whitespace(' '),
            Lexeme::Whitespace('\t'),
            Lexeme::EndOfInput,
        ]
    );
}

#[test]
fn lookahead_is_idempotent_without_consume() {
    let buffer: Vec<u8> = "null true".as_bytes().to_vec();
    let mut scanner = Scanner::new(buffer);
    let first = scanner.lookahead(3).unwrap();
    let second = scanner.lookahead(3).unwrap();
    assert_eq!(first, second);
    // consuming afterwards hands the buffered lexemes out in order
    assert_eq!(scanner.consume().unwrap().lexeme, Lexeme::Alphabetic('n'));
    assert_eq!(scanner.consume().unwrap().lexeme, Lexeme::Alphabetic('u'));
    assert_eq!(scanner.consume().unwrap().lexeme, Lexeme::Alphabetic('l'));
}

#[test]
fn coordinates_advance_per_character_and_reset_on_newline() {
    let buffer: Vec<u8> = "a\nb".as_bytes().to_vec();
    let mut scanner = Scanner::new(buffer);
    assert_eq!(scanner.back_coords().absolute, 0);
    assert_eq!(scanner.back_coords().line, 1);
    assert_eq!(scanner.back_coords().column, 0);
    let a = scanner.with_mode(ScannerMode::ProduceWhitespace).consume().unwrap();
    assert_eq!(a.coords.absolute, 1);
    assert_eq!(a.coords.line, 1);
    assert_eq!(a.coords.column, 1);
    let nl = scanner.consume().unwrap();
    assert_eq!(nl.lexeme, Lexeme::NewLine);
    assert_eq!(nl.coords.absolute, 2);
    assert_eq!(nl.coords.line, 2);
    assert_eq!(nl.coords.column, 0);
    let b = scanner.consume().unwrap();
    assert_eq!(b.coords.absolute, 3);
    assert_eq!(b.coords.line, 2);
    assert_eq!(b.coords.column, 1);
}

#[test]
fn scanner_wraps_decode_failures() {
    let mut scanner = Scanner::new(vec![0xFFu8]);
    let err = scanner.consume().unwrap_err();
    assert_eq!(err.stage, ParserStage::Scanner);
    assert_eq!(err.code, ParserErrorCode::ExpectedLexeme);
    let inner = err.inner.as_ref().unwrap();
    assert_eq!(inner.code, ParserErrorCode::StreamFailure);
    let cause = inner.inner.as_ref().unwrap();
    assert_eq!(cause.code, ParserErrorCode::InvalidByteSequence);
}
