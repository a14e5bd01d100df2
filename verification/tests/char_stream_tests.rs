use chisel::char_stream::CharStream;
use chisel::parser_errors::ParserErrorCode;

#[test]
fn can_create_from_array() {
    let buffer: Vec<u8> = vec![0x10, 0x12, 0x23, 0x12];
    let _stream = CharStream::new(buffer);
}

#[test]
fn should_correctly_decode_utf8_characters() {
    let buffer: Vec<u8> = "เคน".as_bytes().to_vec();
    let mut stream = CharStream::new(buffer);
    assert_eq!(stream.next_char().unwrap(), 'เ');
    assert_eq!(stream.next_char().unwrap(), 'ค');
    assert_eq!(stream.next_char().unwrap(), 'น');
    assert_eq!(stream.next_char().unwrap_err().code, ParserErrorCode::EndOfInput);
}

#[test]
fn should_decode_all_sequence_widths() {
    // 1, 2, 3 and 4 byte encodings: 'a', 'é', '€', '😀'
    let buffer: Vec<u8> = "aé€😀".as_bytes().to_vec();
    let mut stream = CharStream::new(buffer);
    assert_eq!(stream.next_char().unwrap(), 'a');
    assert_eq!(stream.next_char().unwrap(), 'é');
    assert_eq!(stream.next_char().unwrap(), '€');
    assert_eq!(stream.next_char().unwrap(), '😀');
    assert_eq!(stream.next_char().unwrap_err().code, ParserErrorCode::EndOfInput);
}

#[test]
fn should_reject_malformed_leading_bytes() {
    // a stray continuation byte and a legacy five-byte form
    for lead in [0x80u8, 0xBF, 0xF8, 0xFF] {
        let mut stream = CharStream::new(vec![lead, 0x20]);
        let err = stream.next_char().unwrap_err();
        assert_eq!(err.code, ParserErrorCode::InvalidByteSequence);
    }
}

#[test]
fn should_reject_overlong_encodings() {
    // 0xC0 0x80 is an overlong encoding of NUL
    let mut stream = CharStream::new(vec![0xC0, 0x80]);
    assert_eq!(
        stream.next_char().unwrap_err().code,
        ParserErrorCode::InvalidByteSequence
    );
    // 0xE0 0x80 0x80 is an overlong three byte form
    let mut stream = CharStream::new(vec![0xE0, 0x80, 0x80]);
    assert_eq!(
        stream.next_char().unwrap_err().code,
        ParserErrorCode::InvalidByteSequence
    );
}

#[test]
fn should_reject_surrogates_and_out_of_range() {
    // 0xED 0xA0 0x80 encodes the surrogate U+D800
    let mut stream = CharStream::new(vec![0xED, 0xA0, 0x80]);
    assert_eq!(
        stream.next_char().unwrap_err().code,
        ParserErrorCode::InvalidByteSequence
    );
    // 0xF4 0x90 0x80 0x80 encodes U+110000, above the scalar range
    let mut stream = CharStream::new(vec![0xF4, 0x90, 0x80, 0x80]);
    assert_eq!(
        stream.next_char().unwrap_err().code,
        ParserErrorCode::InvalidByteSequence
    );
}

#[test]
fn should_report_truncated_sequences() {
    // a two byte sequence cut off after its leading byte
    let mut stream = CharStream::new(vec![0xC3]);
    assert_eq!(
        stream.next_char().unwrap_err().code,
        ParserErrorCode::StreamFailure
    );
    // a four byte sequence cut off in the middle
    let mut stream = CharStream::new(vec![0xF0, 0x9F, 0x98]);
    assert_eq!(
        stream.next_char().unwrap_err().code,
        ParserErrorCode::StreamFailure
    );
}
