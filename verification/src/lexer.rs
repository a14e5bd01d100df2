//! A lexer which consumes a stream of lexemes from a [Scanner] and produces
//! a stream of JSON [Token]s, looking ahead one lexeme to decide which
//! matching rule applies. Whitespace is ignored between tokens and only
//! matters inside string bodies.

use vstd::prelude::*;

use crate::json_numbers::{is_json_number, json_number};
use crate::parser_coords::ParserCoords;
use crate::parser_errors::{
    lexer_error, lexer_error_with_cause, ParserError, ParserErrorCode, ParserResult, ParserStage,
};
use crate::scanner::{
    advance_step, consume_outcome, consume_step, discard_steps, fill_steps, is_advance_error,
    is_consume_error, is_digit_char, is_scanner_eoi_error, AdvanceStep, FillResult, LexOutcome,
    Lexeme, PackedLexeme, ScanErr, Scanner, ScannerMode, ScannerModel,
};
use crate::string_table::StringTable;

verus! {

/// Enumeration of valid JSON tokens. A number token carries the raw literal
/// text of the number, validated against the JSON number grammar; a string
/// token carries the raw body with quotes and escape sequences un-decoded.
#[derive(Debug, Clone, PartialEq)]
pub enum Token {
    StartObject,
    EndObject,
    StartArray,
    EndArray,
    Colon,
    Comma,
    Str(String),
    Num(String),
    Null,
    Bool(bool),
    EndOfInput,
}

/// The mathematical shape of a token: payloads as character sequences.
pub enum TokenModel {
    StartObject,
    EndObject,
    StartArray,
    EndArray,
    Colon,
    Comma,
    Str(Seq<char>),
    Num(Seq<char>),
    Null,
    Bool(bool),
    EndOfInput,
}

impl View for Token {
    type V = TokenModel;

    closed spec fn view(&self) -> TokenModel {
        match self {
            Token::StartObject => TokenModel::StartObject,
            Token::EndObject => TokenModel::EndObject,
            Token::StartArray => TokenModel::StartArray,
            Token::EndArray => TokenModel::EndArray,
            Token::Colon => TokenModel::Colon,
            Token::Comma => TokenModel::Comma,
            Token::Str(s) => TokenModel::Str(s@),
            Token::Num(s) => TokenModel::Num(s@),
            Token::Null => TokenModel::Null,
            Token::Bool(b) => TokenModel::Bool(*b),
            Token::EndOfInput => TokenModel::EndOfInput,
        }
    }
}

/// A token packed with its start coordinate and, for tokens assembled from
/// more than one lexeme, its end coordinate.
#[derive(Debug, Clone)]
pub struct PackedToken {
    /// The actual [Token]
    pub token: Token,
    /// The starting point in the input for the token
    pub start: ParserCoords,
    /// The end point in the input for the token
    pub end: Option<ParserCoords>,
}

/// Relies on `String::push`: it appends the given character to the end of
/// the string.
#[verifier::external_body]
fn push_char(s: &mut String, c: char)
    ensures
        final(s)@ == old(s)@.push(c),
{
    s.push(c);
}

/// A lexer-stage error with the given code, tagged with the coordinates at
/// which the failure was detected.
pub open spec fn is_lexer_error(e: ParserError, code: ParserErrorCode, at: ParserCoords) -> bool {
    &&& e.stage == ParserStage::Lexer
    &&& e.code == code
    &&& e.coords == Some(at)
}

/// The cause a lexer-stage failure carries in its `inner` chain. Each stage
/// wraps the error of the layer below as its cause: the lexer attaches
/// either nothing, the scanner's raw lookahead failure, or the chained
/// error of the literal-matching layer.
pub enum FailCause {
    /// No cause is attached
    NoCause,
    /// The scanner's raw lookahead failure
    ScanCause(ScanErr),
    /// A chained literal-match failure with this code, whose own cause is
    /// the scanner failure that stopped it, if one did
    ExactCause(ParserErrorCode, Option<ScanErr>),
}

/// A raw scanner lookahead failure at `at` with the given shape: the
/// end-of-input error, or the stream-failure wrap carrying the stream-stage
/// code underneath.
pub open spec fn scan_err_error(e: ParserError, se: ScanErr, at: ParserCoords) -> bool {
    match se {
        ScanErr::End => is_scanner_eoi_error(e),
        ScanErr::Stream(code) => is_advance_error(e, code, at),
    }
}

/// Whether an error's `inner` chain carries the given cause. Every link
/// sits at the same coordinates `at`, since each stage wraps at the
/// coordinates where the failure was detected.
pub open spec fn fail_cause_matches(
    inner: Option<Box<ParserError>>,
    cause: FailCause,
    at: ParserCoords,
) -> bool {
    match cause {
        FailCause::NoCause => inner is None,
        FailCause::ScanCause(se) => inner matches Some(ie) && scan_err_error(*ie, se, at),
        FailCause::ExactCause(code, sub) => inner matches Some(ie) && is_lexer_error(
            *ie,
            code,
            at,
        ) && (match sub {
            None => (*ie).inner is None,
            Some(se) => (*ie).inner matches Some(ie2) && scan_err_error(*ie2, se, at),
        }),
    }
}

/// The cause a literal-match failure itself carries: nothing on a plain
/// mismatch, the raw scanner failure where one stopped the lookahead.
pub open spec fn exact_fail_cause(sub: Option<ScanErr>) -> FailCause {
    match sub {
        None => FailCause::NoCause,
        Some(se) => FailCause::ScanCause(se),
    }
}

/// How much input the scanner still holds: buffered lexemes plus raw bytes.
/// Every consumed lexeme strictly shrinks it.
pub open spec fn scan_measure(m: ScannerModel) -> int {
    m.buf.len() + m.bytes.len() as int
}

/// Advancing never grows the byte stream, and finding a character strictly
/// shrinks it.
pub proof fn lemma_advance_consumes(bs: Seq<u8>, back: ParserCoords, mode: ScannerMode)
    ensures
        (match advance_step(bs, back, mode) {
            AdvanceStep::Found(c, b2, bs2) => bs2.len() < bs.len(),
            AdvanceStep::AtEnd(b2, bs2) => bs2.len() <= bs.len(),
            AdvanceStep::Failed(code, b2, bs2) => bs2.len() <= bs.len(),
        }),
    decreases bs.len(),
{
    match crate::char_stream::decode_head(bs) {
        crate::char_stream::ByteDecode::Decoded(c, k) => {
            if mode == ScannerMode::IgnoreWhitespace && crate::scanner::is_ws_char(c) {
                lemma_advance_consumes(bs.skip(k as int), back.stepped(c), mode);
            }
        },
        _ => {},
    }
}

/// Filling the lookahead buffer moves bytes into lexemes: the combined
/// measure never grows, the buffer only gains entries at the back, and on
/// success the buffer reaches the requested count.
pub proof fn lemma_fill_props(
    bytes: Seq<u8>,
    back: ParserCoords,
    buf: Seq<PackedLexeme>,
    mode: ScannerMode,
    count: int,
)
    ensures
        ({
            let f = fill_steps(bytes, back, buf, mode, count);
            &&& f.buf.len() + f.bytes.len() <= buf.len() + bytes.len()
            &&& f.buf.len() >= buf.len()
            &&& (f.err is None ==> f.buf.len() >= count)
            &&& (forall|i: int| 0 <= i < buf.len() ==> f.buf[i] == buf[i])
        }),
    decreases count - buf.len(),
{
    if buf.len() >= count {
    } else {
        lemma_advance_consumes(bytes, back, mode);
        match advance_step(bytes, back, mode) {
            AdvanceStep::Found(c, back2, bs2) => {
                let pushed = buf.push(
                    PackedLexeme { lexeme: crate::scanner::lexeme_for(c), coords: back2 },
                );
                lemma_fill_props(bs2, back2, pushed, mode, count);
                let f = fill_steps(bytes, back, buf, mode, count);
                assert forall|i: int| 0 <= i < buf.len() implies f.buf[i] == buf[i] by {
                    assert(pushed[i] == buf[i]);
                }
            },
            _ => {},
        }
    }
}

/// Consuming never grows the measure, and handing out a real lexeme (not the
/// end-of-input sentinel) strictly shrinks it.
pub proof fn lemma_consume_measure(m: ScannerModel)
    ensures
        scan_measure(consume_step(m)) <= scan_measure(m),
        (match consume_outcome(m) {
            LexOutcome::Lex(pl) => !(pl.lexeme is EndOfInput) ==> scan_measure(consume_step(m))
                < scan_measure(m),
            LexOutcome::Failed(code) => true,
        }),
{
    if m.buf.len() == 0 {
        lemma_advance_consumes(m.bytes, m.back, m.mode);
    }
}

/// The scanner state after a successful lookahead that performed the fill `f`.
pub open spec fn la_state(m: ScannerModel, f: FillResult) -> ScannerModel {
    ScannerModel { bytes: f.bytes, back: f.back, front: f.buf[0].coords, buf: f.buf, mode: m.mode }
}

/// The scanner state after a failed lookahead that performed the fill `f`:
/// the front coordinates are left alone.
pub open spec fn la_fail_state(m: ScannerModel, f: FillResult) -> ScannerModel {
    ScannerModel { bytes: f.bytes, back: f.back, front: m.front, buf: f.buf, mode: m.mode }
}

/// Fill the lookahead buffer of `m` up to `count` entries.
pub open spec fn fill_to(m: ScannerModel, count: int) -> FillResult {
    fill_steps(m.bytes, m.back, m.buf, m.mode, count)
}

/// The literal character a lexeme stands for, used when string bodies are
/// reassembled. The end-of-input lexeme stands for no character and is never
/// asked for one.
pub open spec fn lexeme_char(l: Lexeme) -> char {
    match l {
        Lexeme::EndOfInput => '\0',
        Lexeme::LeftBrace => '{',
        Lexeme::RightBrace => '}',
        Lexeme::LeftBracket => '[',
        Lexeme::RightBracket => ']',
        Lexeme::Colon => ':',
        Lexeme::Comma => ',',
        Lexeme::DoubleQuote => '"',
        Lexeme::SingleQuote => '\'',
        Lexeme::Whitespace(c) => c,
        Lexeme::NewLine => '\n',
        Lexeme::Escape => '\\',
        Lexeme::Alphabetic(c) => c,
        Lexeme::NonAlphabetic(c) => c,
        Lexeme::Digit(c) => c,
        Lexeme::Plus => '+',
        Lexeme::Minus => '-',
        Lexeme::NotRecognised(c) => c,
    }
}

/// The literal character a lexeme stands for.
fn lexeme_to_char(l: Lexeme) -> (c: char)
    ensures
        c == lexeme_char(l),
{
    match l {
        Lexeme::EndOfInput => '\0',
        Lexeme::LeftBrace => '{',
        Lexeme::RightBrace => '}',
        Lexeme::LeftBracket => '[',
        Lexeme::RightBracket => ']',
        Lexeme::Colon => ':',
        Lexeme::Comma => ',',
        Lexeme::DoubleQuote => '"',
        Lexeme::SingleQuote => '\'',
        Lexeme::Whitespace(c) => c,
        Lexeme::NewLine => '\n',
        Lexeme::Escape => '\\',
        Lexeme::Alphabetic(c) => c,
        Lexeme::NonAlphabetic(c) => c,
        Lexeme::Digit(c) => c,
        Lexeme::Plus => '+',
        Lexeme::Minus => '-',
        Lexeme::NotRecognised(c) => c,
    }
}

/// The escape characters accepted after a backslash besides a double quote
/// and the `u` of a Unicode escape.
pub open spec fn simple_escape_char(c: char) -> bool {
    c == 'n' || c == 't' || c == 'r' || c == '\\' || c == '/' || c == 'b' || c == 'f'
}

/// Decide whether a character is one of the simple escape characters.
fn is_simple_escape_char(c: char) -> (r: bool)
    ensures
        r == simple_escape_char(c),
{
    c == 'n' || c == 't' || c == 'r' || c == '\\' || c == '/' || c == 'b' || c == 'f'
}

/// An ASCII hexadecimal digit.
pub open spec fn is_hex_char(c: char) -> bool {
    ||| is_digit_char(c)
    ||| (0x41 <= c as u32 && c as u32 <= 0x46)
    ||| (0x61 <= c as u32 && c as u32 <= 0x66)
}

/// Decide whether a character is an ASCII hexadecimal digit.
fn is_ascii_hex_char(c: char) -> (r: bool)
    ensures
        r == is_hex_char(c),
{
    let u = c as u32;
    (0x30 <= u && u <= 0x39) || (0x41 <= u && u <= 0x46) || (0x61 <= u && u <= 0x66)
}

/// Where the string state machine stands: in the body, right after a
/// backslash, or inside a Unicode escape with the given number of hex
/// digits still owed.
pub enum StrState {
    /// Plain body characters
    InBody,
    /// A backslash has been consumed and appended
    EscapeChar,
    /// Inside `\uXXXX`, with this many hex digits still to read
    Unicode(int),
}

/// A rank that orders the states for termination: accepting a stray escape
/// returns to the body without consuming input.
pub open spec fn str_state_rank(st: StrState) -> int {
    match st {
        StrState::InBody => 0,
        StrState::EscapeChar => 1,
        StrState::Unicode(j) => 2,
    }
}

/// How a string body scan ends: the complete raw payload, a lexer-stage
/// failure at some coordinates, or a scanner failure passed through raw.
/// A string-body failure never carries a cause: nothing below it failed.
pub enum StrStep {
    /// The payload including both quotes, and the state after the closing quote
    Done(Seq<char>, ScannerModel),
    /// A lexer-stage failure with this code at these coordinates
    Fail(ParserErrorCode, ParserCoords, ScannerModel),
    /// The scanner's own consume failure, passed through unchanged
    ScanFail(ParserErrorCode, ScannerModel),
}

/// The string-body state machine, one consumed lexeme per step: a closing
/// quote ends the body (the quote is appended), every other lexeme appends
/// its literal character, a backslash starts escape handling, and a raw
/// newline or the end of the input is a hard failure rather than a silent
/// truncation.
pub open spec fn string_scan(m: ScannerModel, acc: Seq<char>, st: StrState) -> StrStep
    decreases scan_measure(m), str_state_rank(st),
    via string_scan_dec
{
    let m1 = consume_step(m);
    match consume_outcome(m) {
        LexOutcome::Failed(code) => StrStep::ScanFail(code, m1),
        LexOutcome::Lex(pl) => match st {
            StrState::InBody => {
                if pl.lexeme is DoubleQuote {
                    StrStep::Done(acc.push('"'), m1)
                } else if pl.lexeme is EndOfInput {
                    StrStep::Fail(ParserErrorCode::EndOfInput, pl.coords, m1)
                } else if pl.lexeme is NewLine {
                    StrStep::Fail(ParserErrorCode::EndOfInput, pl.coords, m1)
                } else if pl.lexeme is Escape {
                    string_scan(m1, acc.push('\\'), StrState::EscapeChar)
                } else {
                    string_scan(m1, acc.push(lexeme_char(pl.lexeme)), StrState::InBody)
                }
            },
            StrState::EscapeChar => {
                match pl.lexeme {
                    Lexeme::DoubleQuote => string_scan(m1, acc.push('"'), StrState::InBody),
                    Lexeme::Alphabetic(c) => {
                        if c == 'u' {
                            string_scan(m1, acc.push('u'), StrState::Unicode(4))
                        } else if simple_escape_char(c) {
                            string_scan(m1, acc.push(c), StrState::InBody)
                        } else {
                            StrStep::Fail(ParserErrorCode::InvalidCharacter, pl.coords, m1)
                        }
                    },
                    _ => string_scan(m1, acc, StrState::InBody),
                }
            },
            StrState::Unicode(j) => {
                match pl.lexeme {
                    Lexeme::Alphabetic(c) => {
                        if is_hex_char(c) {
                            if j <= 1 {
                                string_scan(m1, acc.push(c), StrState::InBody)
                            } else {
                                string_scan(m1, acc.push(c), StrState::Unicode(j - 1))
                            }
                        } else {
                            StrStep::Fail(ParserErrorCode::InvalidCharacter, pl.coords, m1)
                        }
                    },
                    Lexeme::Digit(c) => {
                        if is_hex_char(c) {
                            if j <= 1 {
                                string_scan(m1, acc.push(c), StrState::InBody)
                            } else {
                                string_scan(m1, acc.push(c), StrState::Unicode(j - 1))
                            }
                        } else {
                            StrStep::Fail(ParserErrorCode::InvalidCharacter, pl.coords, m1)
                        }
                    },
                    _ => StrStep::Fail(ParserErrorCode::InvalidCharacter, pl.coords, m1),
                }
            },
        },
    }
}

#[via_fn]
proof fn string_scan_dec(m: ScannerModel, acc: Seq<char>, st: StrState) {
    lemma_consume_measure(m);
}

/// A lexeme that may continue a number literal: a digit, a sign, an
/// exponent marker, or the decimal point.
pub open spec fn continues_number(l: Lexeme) -> bool {
    match l {
        Lexeme::Digit(c) => true,
        Lexeme::Minus => true,
        Lexeme::Plus => true,
        Lexeme::Alphabetic(c) => c == 'e' || c == 'E',
        Lexeme::NonAlphabetic(c) => c == '.',
        _ => false,
    }
}

/// Decide whether a lexeme may continue a number literal.
fn lexeme_continues_number(l: &Lexeme) -> (r: bool)
    ensures
        r == continues_number(*l),
{
    match l {
        Lexeme::Digit(c) => true,
        Lexeme::Minus => true,
        Lexeme::Plus => true,
        Lexeme::Alphabetic(c) => *c == 'e' || *c == 'E',
        Lexeme::NonAlphabetic(c) => *c == '.',
        _ => false,
    }
}

/// How collecting a number literal ends: the accumulated text and the
/// coordinates of its last lexeme, or a scanner failure.
pub enum NumStep {
    /// The collected literal text, the coordinates of the last collected
    /// lexeme, and the state after collection stopped
    Collected(Seq<char>, ParserCoords, ScannerModel),
    /// The stream failed while looking ahead
    NumScanFail(ParserErrorCode, ScannerModel),
}

/// Collect the longest run of number-shaped lexemes: each is inspected with
/// one lexeme of lookahead and consumed only if it can continue a number;
/// the first lexeme that cannot, or the end of the input, stops collection.
/// A terminating whitespace or newline lexeme is consumed and dropped (it
/// would otherwise sit in the buffer and surface although whitespace is
/// skipped between tokens); any other terminator is left for the next
/// token.
pub open spec fn number_scan(m: ScannerModel, acc: Seq<char>, last: ParserCoords) -> NumStep
    decreases scan_measure(m),
    via number_scan_dec
{
    let f = fill_to(m, 1);
    match f.err {
        Some(ScanErr::End) => NumStep::Collected(acc, last, la_fail_state(m, f)),
        Some(ScanErr::Stream(code)) => NumStep::NumScanFail(code, la_fail_state(m, f)),
        None => {
            let pl = f.buf[0];
            if continues_number(pl.lexeme) {
                number_scan(
                    consume_step(la_state(m, f)),
                    acc.push(lexeme_char(pl.lexeme)),
                    pl.coords,
                )
            } else if pl.lexeme is Whitespace || pl.lexeme is NewLine {
                NumStep::Collected(acc, last, consume_step(la_state(m, f)))
            } else {
                NumStep::Collected(acc, last, la_state(m, f))
            }
        },
    }
}

#[via_fn]
proof fn number_scan_dec(m: ScannerModel, acc: Seq<char>, last: ParserCoords) {
    lemma_fill_props(m.bytes, m.back, m.buf, m.mode, 1);
    let f = fill_to(m, 1);
    if f.err is None {
        lemma_consume_measure(la_state(m, f));
    }
}

/// How matching an exact lexeme sequence by lookahead ends: the front and
/// back coordinates spanning the match, or a failure code with the state at
/// the failure.
pub enum ExactStep {
    /// The span of the matched sequence and the state after the lookaheads
    ExactOk(ParserCoords, ParserCoords, ScannerModel),
    /// `InvalidLexeme` on a mismatch, `ScannerFailure` on a lookahead
    /// failure; the scanner failure that stopped the match, if one did,
    /// becomes the error's cause
    ExactFail(ParserErrorCode, Option<ScanErr>, ScannerModel),
}

/// Match the lexemes `sq[j..]` against the input by lookahead at positions
/// `j + 1` and up, consuming nothing.
pub open spec fn match_exact_rec(m: ScannerModel, sq: Seq<Lexeme>, j: int) -> ExactStep
    decreases sq.len() - j,
    when 0 <= j <= sq.len()
{
    if j >= sq.len() {
        ExactStep::ExactOk(m.front, m.back, m)
    } else {
        let f = fill_to(m, j + 1);
        match f.err {
            None => {
                if f.buf[j].lexeme == sq[j] {
                    match_exact_rec(la_state(m, f), sq, j + 1)
                } else {
                    ExactStep::ExactFail(ParserErrorCode::InvalidLexeme, None, la_state(m, f))
                }
            },
            Some(e) => ExactStep::ExactFail(
                ParserErrorCode::ScannerFailure,
                Some(e),
                la_fail_state(m, f),
            ),
        }
    }
}

/// The lexemes of the literal `null`.
pub open spec fn null_seq() -> Seq<Lexeme> {
    seq![
        Lexeme::Alphabetic('n'),
        Lexeme::Alphabetic('u'),
        Lexeme::Alphabetic('l'),
        Lexeme::Alphabetic('l'),
    ]
}

/// The lexemes of the literal `true`.
pub open spec fn true_seq() -> Seq<Lexeme> {
    seq![
        Lexeme::Alphabetic('t'),
        Lexeme::Alphabetic('r'),
        Lexeme::Alphabetic('u'),
        Lexeme::Alphabetic('e'),
    ]
}

/// The lexemes of the literal `false`.
pub open spec fn false_seq() -> Seq<Lexeme> {
    seq![
        Lexeme::Alphabetic('f'),
        Lexeme::Alphabetic('a'),
        Lexeme::Alphabetic('l'),
        Lexeme::Alphabetic('s'),
        Lexeme::Alphabetic('e'),
    ]
}

/// Build the lexeme sequence of the literal `null`.
fn null_sequence() -> (r: Vec<Lexeme>)
    ensures
        r@ == null_seq(),
{
    let mut v: Vec<Lexeme> = Vec::new();
    v.push(Lexeme::Alphabetic('n'));
    v.push(Lexeme::Alphabetic('u'));
    v.push(Lexeme::Alphabetic('l'));
    v.push(Lexeme::Alphabetic('l'));
    proof {
        assert(v@ =~= null_seq());
    }
    v
}

/// Build the lexeme sequence of the literal `true`.
fn true_sequence() -> (r: Vec<Lexeme>)
    ensures
        r@ == true_seq(),
{
    let mut v: Vec<Lexeme> = Vec::new();
    v.push(Lexeme::Alphabetic('t'));
    v.push(Lexeme::Alphabetic('r'));
    v.push(Lexeme::Alphabetic('u'));
    v.push(Lexeme::Alphabetic('e'));
    proof {
        assert(v@ =~= true_seq());
    }
    v
}

/// Build the lexeme sequence of the literal `false`.
fn false_sequence() -> (r: Vec<Lexeme>)
    ensures
        r@ == false_seq(),
{
    let mut v: Vec<Lexeme> = Vec::new();
    v.push(Lexeme::Alphabetic('f'));
    v.push(Lexeme::Alphabetic('a'));
    v.push(Lexeme::Alphabetic('l'));
    v.push(Lexeme::Alphabetic('s'));
    v.push(Lexeme::Alphabetic('e'));
    proof {
        assert(v@ =~= false_seq());
    }
    v
}

/// How producing one token ends: a token with its span and the scanner
/// state after it, a lexer-stage failure, or a scanner failure passed
/// through raw.
pub enum TokenStep {
    /// The token, its start coordinate, its optional end coordinate, and
    /// the scanner state afterwards
    Tok(TokenModel, ParserCoords, Option<ParserCoords>, ScannerModel),
    /// A lexer-stage failure with this code at these coordinates, carrying
    /// the cause of the layer below in its `inner` chain
    Fail(ParserErrorCode, ParserCoords, FailCause, ScannerModel),
    /// The scanner's own consume failure, passed through unchanged
    ScanFail(ParserErrorCode, ScannerModel),
}

/// Matching `null` after an `n` has been seen in lookahead: the four
/// lexemes are matched without consuming, then discarded; any mismatch is a
/// `MatchFailed` without a cause attached.
pub open spec fn null_step(m: ScannerModel) -> TokenStep {
    match match_exact_rec(m, null_seq(), 0) {
        ExactStep::ExactOk(s, e, m2) => TokenStep::Tok(
            TokenModel::Null,
            s,
            Some(e),
            discard_steps(m2, 4),
        ),
        ExactStep::ExactFail(code, sub, m2) => TokenStep::Fail(
            ParserErrorCode::MatchFailed,
            m2.back,
            FailCause::NoCause,
            m2,
        ),
    }
}

/// Matching `true` or `false` after a `t` or `f` has been seen in
/// lookahead; a mismatch is a `MatchFailed` with the inner match error
/// chained.
pub open spec fn bool_step(m: ScannerModel, which: bool) -> TokenStep {
    let sq = if which {
        true_seq()
    } else {
        false_seq()
    };
    match match_exact_rec(m, sq, 0) {
        ExactStep::ExactOk(s, e, m2) => TokenStep::Tok(
            TokenModel::Bool(which),
            s,
            Some(e),
            discard_steps(m2, sq.len() as int),
        ),
        ExactStep::ExactFail(code, sub, m2) => TokenStep::Fail(
            ParserErrorCode::MatchFailed,
            m2.back,
            FailCause::ExactCause(code, sub),
            m2,
        ),
    }
}

/// The number-token path: whitespace becomes significant, the longest run
/// of number-shaped lexemes is collected, and the collected literal must
/// satisfy the JSON number grammar; a malformed literal is a `MatchFailed`.
pub open spec fn number_step(m: ScannerModel) -> TokenStep {
    let mp = ScannerModel { mode: ScannerMode::ProduceWhitespace, ..m };
    let start = m.buf[0].coords;
    match number_scan(mp, Seq::<char>::empty(), start) {
        NumStep::Collected(acc, last, m2) => {
            if json_number(acc) {
                TokenStep::Tok(TokenModel::Num(acc), start, Some(last), m2)
            } else {
                TokenStep::Fail(ParserErrorCode::MatchFailed, m2.back, FailCause::NoCause, m2)
            }
        },
        NumStep::NumScanFail(code, m2) => TokenStep::Fail(
            ParserErrorCode::ScannerFailure,
            m2.back,
            FailCause::ScanCause(ScanErr::Stream(code)),
            m2,
        ),
    }
}

/// The string-token path: whitespace becomes significant, the opening quote
/// is consumed and gives the start coordinate, and the body runs through
/// the string state machine. The payload is the raw text with quotes and
/// escapes un-decoded.
pub open spec fn string_step(m: ScannerModel) -> TokenStep {
    let mp = ScannerModel { mode: ScannerMode::ProduceWhitespace, ..m };
    let start = m.buf[0].coords;
    let m1 = consume_step(mp);
    match string_scan(m1, seq!['"'], StrState::InBody) {
        StrStep::Done(payload, m2) => TokenStep::Tok(
            TokenModel::Str(payload),
            start,
            Some(m2.back),
            m2,
        ),
        StrStep::Fail(code, at, m2) => TokenStep::Fail(code, at, FailCause::NoCause, m2),
        StrStep::ScanFail(code, m2) => TokenStep::ScanFail(code, m2),
    }
}

/// What one call of the lexer's `consume` does to the scanner and what it
/// returns, for every starting state: whitespace handling is switched to
/// skipping, one lexeme of lookahead selects the matching rule, and the
/// rule runs.
pub open spec fn next_token_step(m0: ScannerModel) -> TokenStep {
    let m = ScannerModel { mode: ScannerMode::IgnoreWhitespace, ..m0 };
    let f = fill_to(m, 1);
    match f.err {
        Some(ScanErr::End) => TokenStep::Tok(
            TokenModel::EndOfInput,
            f.back,
            None,
            la_fail_state(m, f),
        ),
        Some(ScanErr::Stream(code)) => TokenStep::Fail(
            ParserErrorCode::ScannerFailure,
            f.back,
            FailCause::ScanCause(ScanErr::Stream(code)),
            la_fail_state(m, f),
        ),
        None => {
            let pl = f.buf[0];
            let mla = la_state(m, f);
            match pl.lexeme {
                Lexeme::LeftBrace => TokenStep::Tok(
                    TokenModel::StartObject,
                    pl.coords,
                    None,
                    consume_step(mla),
                ),
                Lexeme::RightBrace => TokenStep::Tok(
                    TokenModel::EndObject,
                    pl.coords,
                    None,
                    consume_step(mla),
                ),
                Lexeme::LeftBracket => TokenStep::Tok(
                    TokenModel::StartArray,
                    pl.coords,
                    None,
                    consume_step(mla),
                ),
                Lexeme::RightBracket => TokenStep::Tok(
                    TokenModel::EndArray,
                    pl.coords,
                    None,
                    consume_step(mla),
                ),
                Lexeme::Comma => TokenStep::Tok(
                    TokenModel::Comma,
                    pl.coords,
                    None,
                    consume_step(mla),
                ),
                Lexeme::Colon => TokenStep::Tok(
                    TokenModel::Colon,
                    pl.coords,
                    None,
                    consume_step(mla),
                ),
                Lexeme::Alphabetic(c) => {
                    if c == 'n' {
                        null_step(mla)
                    } else if c == 't' {
                        bool_step(mla, true)
                    } else if c == 'f' {
                        bool_step(mla, false)
                    } else {
                        TokenStep::Fail(
                            ParserErrorCode::InvalidCharacter,
                            mla.back,
                            FailCause::NoCause,
                            mla,
                        )
                    }
                },
                Lexeme::Minus => number_step(mla),
                Lexeme::Digit(c) => number_step(mla),
                Lexeme::DoubleQuote => string_step(mla),
                Lexeme::EndOfInput => TokenStep::Tok(TokenModel::EndOfInput, mla.back, None, mla),
                _ => TokenStep::Fail(
                    ParserErrorCode::InvalidLexeme,
                    mla.back,
                    FailCause::NoCause,
                    mla,
                ),
            }
        },
    }
}

/// A lexer which holds the scanner it sources lexemes from, a string table
/// available for interning parsed strings, and a reusable text buffer for
/// assembling string and number literals.
#[derive(Debug)]
pub struct Lexer {
    /// [StringTable] available for interning parsed strings
    strings: StringTable,
    /// The [Scanner] instance used by the lexer to source [Lexeme]s
    scanner: Scanner,
    /// Internal buffer for hoovering up strings from the input
    buffer: String,
}

impl Lexer {
    /// The abstract state of the underlying scanner.
    pub closed spec fn scanner_model(&self) -> ScannerModel {
        self.scanner.model()
    }

    /// The lexer is well formed when its scanner is.
    pub closed spec fn wf(&self) -> bool {
        self.scanner.wf()
    }

    /// The strings interned in the table the lexer holds for its callers.
    /// Token production never exercises the table: every operation below
    /// leaves this view unchanged.
    pub closed spec fn strings_view(&self) -> Map<u32, Seq<char>> {
        self.strings@
    }

    /// Construct a new [Lexer] which owns the given [StringTable] and
    /// tokenizes the given input bytes.
    pub fn new(string_table: StringTable, data: Vec<u8>) -> (r: Lexer)
        requires
            data@.len() < usize::MAX,
        ensures
            r.wf(),
            r.strings_view() == string_table@,
            r.scanner_model() == (ScannerModel {
                bytes: data@,
                back: ParserCoords::start(),
                front: ParserCoords::start(),
                buf: Seq::<PackedLexeme>::empty(),
                mode: ScannerMode::IgnoreWhitespace,
            }),
    {
        Lexer { strings: string_table, scanner: Scanner::new(data), buffer: String::new() }
    }

    /// Consume the next token from the input. This is an LA(1) algorithm:
    /// one lexeme of lookahead selects the matching rule, which then
    /// consumes one or more lexemes. Whitespace is skipped between tokens;
    /// the end of the input surfaces as `Token::EndOfInput`, idempotently.
    pub fn consume(&mut self) -> (r: ParserResult<PackedToken>)
        requires
            old(self).wf(),
        ensures
            final(self).wf(),
            final(self).strings_view() == old(self).strings_view(),
            (match next_token_step(old(self).scanner_model()) {
                TokenStep::Tok(tm, s, e, m2) => {
                    &&& r matches Ok(pt) && pt.token@ == tm && pt.start == s && pt.end == e
                    &&& final(self).scanner_model() == m2
                },
                TokenStep::Fail(code, at, cause, m2) => {
                    &&& r matches Err(err) && is_lexer_error(err, code, at)
                        && fail_cause_matches(err.inner, cause, at)
                    &&& final(self).scanner_model() == m2
                },
                TokenStep::ScanFail(code, m2) => {
                    &&& r matches Err(err) && is_consume_error(err, code, m2.back)
                    &&& final(self).scanner_model() == m2
                },
            }),
    {
        let ghost m0 = old(self).scanner_model();
        let ghost m = ScannerModel { mode: ScannerMode::IgnoreWhitespace, ..m0 };
        let _ = self.scanner.with_mode(ScannerMode::IgnoreWhitespace);
        match self.scanner.lookahead(1) {
            Ok(packed) => {
                proof {
                    lemma_fill_props(m.bytes, m.back, m.buf, m.mode, 1);
                }
                match packed.lexeme {
                    Lexeme::LeftBrace => self.match_start_object(),
                    Lexeme::RightBrace => self.match_end_object(),
                    Lexeme::LeftBracket => self.match_start_array(),
                    Lexeme::RightBracket => self.match_end_array(),
                    Lexeme::Comma => self.match_comma(),
                    Lexeme::Colon => self.match_colon(),
                    Lexeme::Alphabetic(c) => {
                        if c == 'n' {
                            self.match_null()
                        } else if c == 't' || c == 'f' {
                            self.match_bool(c)
                        } else {
                            Err(
                                lexer_error(
                                    ParserErrorCode::InvalidCharacter,
                                    "invalid character found",
                                    self.scanner.back_coords(),
                                ),
                            )
                        }
                    },
                    Lexeme::Minus => self.match_number(),
                    Lexeme::Digit(_) => self.match_number(),
                    Lexeme::DoubleQuote => self.match_string(),
                    Lexeme::EndOfInput => Ok(
                        PackedToken {
                            token: Token::EndOfInput,
                            start: self.scanner.back_coords(),
                            end: None,
                        },
                    ),
                    _ => Err(
                        lexer_error(
                            ParserErrorCode::InvalidLexeme,
                            "invalid lexeme found",
                            self.scanner.back_coords(),
                        ),
                    ),
                }
            },
            Err(err) => {
                if matches!(err.code, ParserErrorCode::EndOfInput) {
                    Ok(
                        PackedToken {
                            token: Token::EndOfInput,
                            start: self.scanner.back_coords(),
                            end: None,
                        },
                    )
                } else {
                    Err(
                        lexer_error_with_cause(
                            ParserErrorCode::ScannerFailure,
                            "lookahead failed",
                            self.scanner.back_coords(),
                            err,
                        ),
                    )
                }
            },
        }
    }

    /// Consume and match exactly the given sequence of lexemes by pure
    /// lookahead, returning the front and back coordinates spanning the
    /// match; nothing is consumed.
    #[verifier::loop_isolation(false)]
    fn match_exact(&mut self, sq: &Vec<Lexeme>) -> (r: ParserResult<(ParserCoords, ParserCoords)>)
        requires
            old(self).wf(),
        ensures
            final(self).wf(),
            final(self).strings_view() == old(self).strings_view(),
            (match match_exact_rec(old(self).scanner_model(), sq@, 0) {
                ExactStep::ExactOk(s, e, m2) => {
                    &&& r matches Ok(p) && p == (s, e)
                    &&& final(self).scanner_model() == m2
                },
                ExactStep::ExactFail(code, sub, m2) => {
                    &&& r matches Err(err) && is_lexer_error(err, code, m2.back)
                        && fail_cause_matches(err.inner, exact_fail_cause(sub), m2.back)
                    &&& final(self).scanner_model() == m2
                },
            }),
    {
        let ghost m_start = old(self).scanner_model();
        let mut index: usize = 0;
        while index < sq.len()
            invariant
                self.wf(),
                self.strings_view() == old(self).strings_view(),
                index <= sq@.len(),
                match_exact_rec(self.scanner_model(), sq@, index as int) == match_exact_rec(
                    m_start,
                    sq@,
                    0,
                ),
            decreases sq@.len() - index,
        {
            match self.scanner.lookahead(index + 1) {
                Ok(packed) => {
                    if !(packed.lexeme == sq[index]) {
                        return Err(
                            lexer_error(
                                ParserErrorCode::InvalidLexeme,
                                "unexpected lexeme in literal",
                                self.scanner.back_coords(),
                            ),
                        );
                    }
                },
                Err(err) => {
                    return Err(
                        lexer_error_with_cause(
                            ParserErrorCode::ScannerFailure,
                            "lookahead failed",
                            self.scanner.back_coords(),
                            err,
                        ),
                    );
                },
            }
            index = index + 1;
        }
        Ok((self.scanner.front_coords(), self.scanner.back_coords()))
    }

    /// Attempt to match exactly one of the supplied lexemes in one lexeme
    /// of lookahead, returning the matching lexeme without consuming it.
    #[allow(dead_code)]
    fn match_one_of(&mut self, sq: &Vec<Lexeme>) -> (r: ParserResult<PackedLexeme>)
        requires
            old(self).wf(),
        ensures
            final(self).wf(),
            final(self).strings_view() == old(self).strings_view(),
            ({
                let m = old(self).scanner_model();
                let f = fill_to(m, 1);
                match f.err {
                    None => {
                        &&& (if sq@.contains(f.buf[0].lexeme) {
                            r matches Ok(l) && l == f.buf[0]
                        } else {
                            r matches Err(e) && is_lexer_error(
                                e,
                                ParserErrorCode::MatchFailed,
                                f.back,
                            ) && e.inner is None
                        })
                        &&& final(self).scanner_model() == la_state(m, f)
                    },
                    Some(err) => {
                        &&& r matches Err(e) && is_lexer_error(
                            e,
                            ParserErrorCode::ScannerFailure,
                            f.back,
                        ) && fail_cause_matches(e.inner, FailCause::ScanCause(err), f.back)
                        &&& final(self).scanner_model() == la_fail_state(m, f)
                    },
                }
            }),
    {
        match self.scanner.lookahead(1) {
            Ok(packed) => {
                if contains_lexeme(sq, &packed.lexeme) {
                    Ok(packed)
                } else {
                    Err(
                        lexer_error(
                            ParserErrorCode::MatchFailed,
                            "failed to match any expected lexeme",
                            self.scanner.back_coords(),
                        ),
                    )
                }
            },
            Err(err) => Err(
                lexer_error_with_cause(
                    ParserErrorCode::ScannerFailure,
                    "lookahead failed",
                    self.scanner.back_coords(),
                    err,
                ),
            ),
        }
    }

    /// Consume a `null` token from the input.
    fn match_null(&mut self) -> (r: ParserResult<PackedToken>)
        requires
            old(self).wf(),
        ensures
            final(self).wf(),
            final(self).strings_view() == old(self).strings_view(),
            (match null_step(old(self).scanner_model()) {
                TokenStep::Tok(tm, s, e, m2) => {
                    &&& r matches Ok(pt) && pt.token@ == tm && pt.start == s && pt.end == e
                    &&& final(self).scanner_model() == m2
                },
                TokenStep::Fail(code, at, cause, m2) => {
                    &&& r matches Err(err) && is_lexer_error(err, code, at)
                        && fail_cause_matches(err.inner, cause, at)
                    &&& final(self).scanner_model() == m2
                },
                TokenStep::ScanFail(code, m2) => false,
            }),
    {
        let sq = null_sequence();
        match self.match_exact(&sq) {
            Ok((start, end)) => {
                let _ = self.scanner.discard(4);
                Ok(PackedToken { token: Token::Null, start, end: Some(end) })
            },
            Err(_) => Err(
                lexer_error(
                    ParserErrorCode::MatchFailed,
                    "expected null, couldn't match",
                    self.scanner.back_coords(),
                ),
            ),
        }
    }

    /// Consume a `true` or `false` token from the input, selected by the
    /// prefix character seen in lookahead.
    fn match_bool(&mut self, prefix: char) -> (r: ParserResult<PackedToken>)
        requires
            old(self).wf(),
            prefix == 't' || prefix == 'f',
        ensures
            final(self).wf(),
            final(self).strings_view() == old(self).strings_view(),
            (match bool_step(old(self).scanner_model(), prefix == 't') {
                TokenStep::Tok(tm, s, e, m2) => {
                    &&& r matches Ok(pt) && pt.token@ == tm && pt.start == s && pt.end == e
                    &&& final(self).scanner_model() == m2
                },
                TokenStep::Fail(code, at, cause, m2) => {
                    &&& r matches Err(err) && is_lexer_error(err, code, at)
                        && fail_cause_matches(err.inner, cause, at)
                    &&& final(self).scanner_model() == m2
                },
                TokenStep::ScanFail(code, m2) => false,
            }),
    {
        if prefix == 't' {
            let sq = true_sequence();
            match self.match_exact(&sq) {
                Ok((start, end)) => {
                    let _ = self.scanner.discard(4);
                    Ok(PackedToken { token: Token::Bool(true), start, end: Some(end) })
                },
                Err(err) => Err(
                    lexer_error_with_cause(
                        ParserErrorCode::MatchFailed,
                        "failed to parse a bool",
                        self.scanner.back_coords(),
                        err,
                    ),
                ),
            }
        } else {
            let sq = false_sequence();
            match self.match_exact(&sq) {
                Ok((start, end)) => {
                    let _ = self.scanner.discard(5);
                    Ok(PackedToken { token: Token::Bool(false), start, end: Some(end) })
                },
                Err(err) => Err(
                    lexer_error_with_cause(
                        ParserErrorCode::MatchFailed,
                        "failed to parse a bool",
                        self.scanner.back_coords(),
                        err,
                    ),
                ),
            }
        }
    }

    /// Consume a number token: collect the longest run of number-shaped
    /// lexemes, then hold the collected literal to the JSON number grammar.
    /// The token carries the raw literal text.
    #[verifier::loop_isolation(false)]
    fn match_number(&mut self) -> (r: ParserResult<PackedToken>)
        requires
            old(self).wf(),
            old(self).scanner_model().buf.len() > 0,
        ensures
            final(self).wf(),
            final(self).strings_view() == old(self).strings_view(),
            (match number_step(old(self).scanner_model()) {
                TokenStep::Tok(tm, s, e, m2) => {
                    &&& r matches Ok(pt) && pt.token@ == tm && pt.start == s && pt.end == e
                    &&& final(self).scanner_model() == m2
                },
                TokenStep::Fail(code, at, cause, m2) => {
                    &&& r matches Err(err) && is_lexer_error(err, code, at)
                        && fail_cause_matches(err.inner, cause, at)
                    &&& final(self).scanner_model() == m2
                },
                TokenStep::ScanFail(code, m2) => false,
            }),
    {
        let ghost m_in = old(self).scanner_model();
        let ghost mp = ScannerModel { mode: ScannerMode::ProduceWhitespace, ..m_in };
        self.buffer = String::new();
        let _ = self.scanner.with_mode(ScannerMode::ProduceWhitespace);
        proof {
            lemma_fill_props(mp.bytes, mp.back, mp.buf, mp.mode, 1);
            assert(self.buffer@ =~= Seq::<char>::empty());
        }
        let start: ParserCoords = match self.scanner.lookahead(1) {
            Ok(p) => p.coords,
            Err(e) => {
                proof {
                    assert(false);
                }
                return Err(e);
            },
        };
        let mut last: ParserCoords = start;
        proof {
            lemma_lookahead_noop(mp, 1);
        }
        let mut collecting = true;
        while collecting
            invariant
                self.wf(),
                self.strings_view() == old(self).strings_view(),
                (if collecting {
                    number_scan(mp, Seq::<char>::empty(), start) == number_scan(
                        self.scanner_model(),
                        self.buffer@,
                        last,
                    )
                } else {
                    number_scan(mp, Seq::<char>::empty(), start) == NumStep::Collected(
                        self.buffer@,
                        last,
                        self.scanner_model(),
                    )
                }),
            decreases scan_measure(self.scanner_model()) + (if collecting {
                1int
            } else {
                0int
            }),
        {
            let ghost pre = self.scanner_model();
            proof {
                lemma_fill_props(pre.bytes, pre.back, pre.buf, pre.mode, 1);
            }
            match self.scanner.lookahead(1) {
                Ok(packed) => {
                    if lexeme_continues_number(&packed.lexeme) {
                        match self.scanner.consume() {
                            Ok(p2) => {
                                push_char(&mut self.buffer, lexeme_to_char(p2.lexeme));
                                last = p2.coords;
                                proof {
                                    lemma_consume_measure(la_state(pre, fill_to(pre, 1)));
                                }
                            },
                            Err(e) => {
                                proof {
                                    assert(false);
                                }
                                return Err(e);
                            },
                        }
                    } else {
                        if matches!(packed.lexeme, Lexeme::Whitespace(_) | Lexeme::NewLine) {
                            let _ = self.scanner.consume();
                        }
                        collecting = false;
                    }
                },
                Err(e) => {
                    if matches!(e.code, ParserErrorCode::EndOfInput) {
                        collecting = false;
                    } else {
                        return Err(
                            lexer_error_with_cause(
                                ParserErrorCode::ScannerFailure,
                                "lookahead failed",
                                self.scanner.back_coords(),
                                e,
                            ),
                        );
                    }
                },
            }
        }
        if is_json_number(self.buffer.as_str()) {
            Ok(
                PackedToken {
                    token: Token::Num(self.buffer.clone()),
                    start,
                    end: Some(last),
                },
            )
        } else {
            Err(
                lexer_error(
                    ParserErrorCode::MatchFailed,
                    "malformed number literal",
                    self.scanner.back_coords(),
                ),
            )
        }
    }

    /// Consume a string token, including any escaped characters. No
    /// translation of escapes is performed: the token carries the raw body,
    /// quotes and escape sequences included.
    #[verifier::loop_isolation(false)]
    fn match_string(&mut self) -> (r: ParserResult<PackedToken>)
        requires
            old(self).wf(),
            old(self).scanner_model().buf.len() > 0,
            old(self).scanner_model().buf[0].lexeme is DoubleQuote,
        ensures
            final(self).wf(),
            final(self).strings_view() == old(self).strings_view(),
            (match string_step(old(self).scanner_model()) {
                TokenStep::Tok(tm, s, e, m2) => {
                    &&& r matches Ok(pt) && pt.token@ == tm && pt.start == s && pt.end == e
                    &&& final(self).scanner_model() == m2
                },
                TokenStep::Fail(code, at, cause, m2) => {
                    &&& r matches Err(err) && is_lexer_error(err, code, at)
                        && fail_cause_matches(err.inner, cause, at)
                    &&& final(self).scanner_model() == m2
                },
                TokenStep::ScanFail(code, m2) => {
                    &&& r matches Err(err) && is_consume_error(err, code, m2.back)
                    &&& final(self).scanner_model() == m2
                },
            }),
    {
        let ghost m_in = old(self).scanner_model();
        let ghost mp = ScannerModel { mode: ScannerMode::ProduceWhitespace, ..m_in };
        self.buffer = String::new();
        push_char(&mut self.buffer, '"');
        let _ = self.scanner.with_mode(ScannerMode::ProduceWhitespace);
        let start_coords: ParserCoords = match self.scanner.consume() {
            Ok(p) => p.coords,
            Err(e) => {
                proof {
                    assert(false);
                }
                return Err(e);
            },
        };
        proof {
            assert(self.buffer@ =~= seq!['"']);
        }
        let mut in_body = true;
        while in_body
            invariant
                self.wf(),
                self.strings_view() == old(self).strings_view(),
                (if in_body {
                    string_scan(consume_step(mp), seq!['"'], StrState::InBody) == string_scan(
                        self.scanner_model(),
                        self.buffer@,
                        StrState::InBody,
                    )
                } else {
                    string_scan(consume_step(mp), seq!['"'], StrState::InBody) == StrStep::Done(
                        self.buffer@,
                        self.scanner_model(),
                    )
                }),
            decreases scan_measure(self.scanner_model()) + (if in_body {
                1int
            } else {
                0int
            }),
        {
            let ghost pre = self.scanner_model();
            proof {
                lemma_consume_measure(pre);
            }
            match self.scanner.consume() {
                Ok(packed) => {
                    match packed.lexeme {
                        Lexeme::Escape => {
                            match self.match_escape_sequence() {
                                Ok(u) => {},
                                Err(e) => {
                                    return Err(e);
                                },
                            }
                        },
                        Lexeme::DoubleQuote => {
                            push_char(&mut self.buffer, '"');
                            in_body = false;
                        },
                        Lexeme::EndOfInput => {
                            return Err(
                                lexer_error(
                                    ParserErrorCode::EndOfInput,
                                    "end of input found whilst parsing string",
                                    packed.coords,
                                ),
                            );
                        },
                        Lexeme::NewLine => {
                            return Err(
                                lexer_error(
                                    ParserErrorCode::EndOfInput,
                                    "newline found whilst parsing string",
                                    packed.coords,
                                ),
                            );
                        },
                        l => {
                            push_char(&mut self.buffer, lexeme_to_char(l));
                        },
                    }
                },
                Err(e) => {
                    return Err(e);
                },
            }
        }
        Ok(
            PackedToken {
                token: Token::Str(self.buffer.clone()),
                start: start_coords,
                end: Some(self.scanner.back_coords()),
            },
        )
    }

    /// Match one escape sequence after a backslash: the backslash is
    /// appended, then the next lexeme decides between a literal quote, a
    /// simple escape character, and a Unicode escape.
    fn match_escape_sequence(&mut self) -> (r: ParserResult<()>)
        requires
            old(self).wf(),
        ensures
            final(self).wf(),
            final(self).strings_view() == old(self).strings_view(),
            scan_measure(final(self).scanner_model()) <= scan_measure(old(self).scanner_model()),
            r matches Ok(u) ==> string_scan(
                old(self).scanner_model(),
                old(self).buffer_view().push('\\'),
                StrState::EscapeChar,
            ) == string_scan(final(self).scanner_model(), final(self).buffer_view(), StrState::InBody),
            r matches Err(e) ==> (match string_scan(
                old(self).scanner_model(),
                old(self).buffer_view().push('\\'),
                StrState::EscapeChar,
            ) {
                StrStep::Fail(code, at, m2) => is_lexer_error(e, code, at) && e.inner is None
                    && final(self).scanner_model() == m2,
                StrStep::ScanFail(code, m2) => is_consume_error(e, code, m2.back) && final(self).scanner_model() == m2,
                StrStep::Done(p, m2) => false,
            }),
    {
        let ghost m_in = old(self).scanner_model();
        proof {
            lemma_consume_measure(m_in);
        }
        push_char(&mut self.buffer, '\\');
        let packed = match self.scanner.consume() {
            Ok(p) => p,
            Err(e) => {
                return Err(e);
            },
        };
        match packed.lexeme {
            Lexeme::DoubleQuote => {
                push_char(&mut self.buffer, '"');
                Ok(())
            },
            Lexeme::Alphabetic(c) => {
                if c == 'u' {
                    push_char(&mut self.buffer, 'u');
                    self.match_unicode_escape_sequence()
                } else if is_simple_escape_char(c) {
                    push_char(&mut self.buffer, c);
                    Ok(())
                } else {
                    Err(
                        lexer_error(
                            ParserErrorCode::InvalidCharacter,
                            "invalid escape sequence detected",
                            packed.coords,
                        ),
                    )
                }
            },
            _ => Ok(()),
        }
    }

    /// Match a Unicode escape sequence in the form `uXXXX` where each `X`
    /// is an ASCII hex digit.
    #[verifier::loop_isolation(false)]
    fn match_unicode_escape_sequence(&mut self) -> (r: ParserResult<()>)
        requires
            old(self).wf(),
        ensures
            final(self).wf(),
            final(self).strings_view() == old(self).strings_view(),
            scan_measure(final(self).scanner_model()) <= scan_measure(old(self).scanner_model()),
            r matches Ok(u) ==> string_scan(
                old(self).scanner_model(),
                old(self).buffer_view(),
                StrState::Unicode(4),
            ) == string_scan(final(self).scanner_model(), final(self).buffer_view(), StrState::InBody),
            r matches Err(e) ==> (match string_scan(
                old(self).scanner_model(),
                old(self).buffer_view(),
                StrState::Unicode(4),
            ) {
                StrStep::Fail(code, at, m2) => is_lexer_error(e, code, at) && e.inner is None
                    && final(self).scanner_model() == m2,
                StrStep::ScanFail(code, m2) => is_consume_error(e, code, m2.back) && final(self).scanner_model() == m2,
                StrStep::Done(p, m2) => false,
            }),
    {
        let ghost m_in = old(self).scanner_model();
        let ghost acc_in = old(self).buffer_view();
        let mut remaining: usize = 4;
        while remaining > 0
            invariant
                self.wf(),
                self.strings_view() == old(self).strings_view(),
                remaining <= 4,
                scan_measure(self.scanner_model()) <= scan_measure(m_in),
                (if remaining > 0 {
                    string_scan(m_in, acc_in, StrState::Unicode(4)) == string_scan(
                        self.scanner_model(),
                        self.buffer_view(),
                        StrState::Unicode(remaining as int),
                    )
                } else {
                    string_scan(m_in, acc_in, StrState::Unicode(4)) == string_scan(
                        self.scanner_model(),
                        self.buffer_view(),
                        StrState::InBody,
                    )
                }),
            decreases remaining,
        {
            let ghost pre = self.scanner_model();
            proof {
                lemma_consume_measure(pre);
            }
            let packed = match self.scanner.consume() {
                Ok(p) => p,
                Err(e) => {
                    return Err(e);
                },
            };
            match packed.lexeme {
                Lexeme::Alphabetic(c) => {
                    if is_ascii_hex_char(c) {
                        push_char(&mut self.buffer, c);
                    } else {
                        return Err(
                            lexer_error(
                                ParserErrorCode::InvalidCharacter,
                                "invalid hex escape code detected",
                                packed.coords,
                            ),
                        );
                    }
                },
                Lexeme::Digit(c) => {
                    if is_ascii_hex_char(c) {
                        push_char(&mut self.buffer, c);
                    } else {
                        return Err(
                            lexer_error(
                                ParserErrorCode::InvalidCharacter,
                                "invalid hex escape code detected",
                                packed.coords,
                            ),
                        );
                    }
                },
                _ => {
                    return Err(
                        lexer_error(
                            ParserErrorCode::InvalidCharacter,
                            "invalid escape sequence detected",
                            packed.coords,
                        ),
                    );
                },
            }
            remaining = remaining - 1;
        }
        Ok(())
    }

    /// Consume a left brace from the input.
    fn match_start_object(&mut self) -> (r: ParserResult<PackedToken>)
        requires
            old(self).wf(),
            old(self).scanner_model().buf.len() > 0,
        ensures
            final(self).wf(),
            final(self).strings_view() == old(self).strings_view(),
            final(self).scanner_model() == consume_step(old(self).scanner_model()),
            r matches Ok(pt) && pt.token == Token::StartObject && pt.start == old(self).scanner_model().buf[0].coords && pt.end is None,
    {
        let result = match self.scanner.consume() {
            Ok(p) => p,
            Err(e) => {
                proof {
                    assert(false);
                }
                return Err(e);
            },
        };
        Ok(PackedToken { token: Token::StartObject, start: result.coords, end: None })
    }

    /// Consume a right brace from the input.
    fn match_end_object(&mut self) -> (r: ParserResult<PackedToken>)
        requires
            old(self).wf(),
            old(self).scanner_model().buf.len() > 0,
        ensures
            final(self).wf(),
            final(self).strings_view() == old(self).strings_view(),
            final(self).scanner_model() == consume_step(old(self).scanner_model()),
            r matches Ok(pt) && pt.token == Token::EndObject && pt.start == old(self).scanner_model().buf[0].coords && pt.end is None,
    {
        let result = match self.scanner.consume() {
            Ok(p) => p,
            Err(e) => {
                proof {
                    assert(false);
                }
                return Err(e);
            },
        };
        Ok(PackedToken { token: Token::EndObject, start: result.coords, end: None })
    }

    /// Consume a left bracket from the input.
    fn match_start_array(&mut self) -> (r: ParserResult<PackedToken>)
        requires
            old(self).wf(),
            old(self).scanner_model().buf.len() > 0,
        ensures
            final(self).wf(),
            final(self).strings_view() == old(self).strings_view(),
            final(self).scanner_model() == consume_step(old(self).scanner_model()),
            r matches Ok(pt) && pt.token == Token::StartArray && pt.start == old(self).scanner_model().buf[0].coords && pt.end is None,
    {
        let result = match self.scanner.consume() {
            Ok(p) => p,
            Err(e) => {
                proof {
                    assert(false);
                }
                return Err(e);
            },
        };
        Ok(PackedToken { token: Token::StartArray, start: result.coords, end: None })
    }

    /// Consume a right bracket from the input.
    fn match_end_array(&mut self) -> (r: ParserResult<PackedToken>)
        requires
            old(self).wf(),
            old(self).scanner_model().buf.len() > 0,
        ensures
            final(self).wf(),
            final(self).strings_view() == old(self).strings_view(),
            final(self).scanner_model() == consume_step(old(self).scanner_model()),
            r matches Ok(pt) && pt.token == Token::EndArray && pt.start == old(self).scanner_model().buf[0].coords && pt.end is None,
    {
        let result = match self.scanner.consume() {
            Ok(p) => p,
            Err(e) => {
                proof {
                    assert(false);
                }
                return Err(e);
            },
        };
        Ok(PackedToken { token: Token::EndArray, start: result.coords, end: None })
    }

    /// Consume a comma from the input.
    fn match_comma(&mut self) -> (r: ParserResult<PackedToken>)
        requires
            old(self).wf(),
            old(self).scanner_model().buf.len() > 0,
        ensures
            final(self).wf(),
            final(self).strings_view() == old(self).strings_view(),
            final(self).scanner_model() == consume_step(old(self).scanner_model()),
            r matches Ok(pt) && pt.token == Token::Comma && pt.start == old(self).scanner_model().buf[0].coords && pt.end is None,
    {
        let result = match self.scanner.consume() {
            Ok(p) => p,
            Err(e) => {
                proof {
                    assert(false);
                }
                return Err(e);
            },
        };
        Ok(PackedToken { token: Token::Comma, start: result.coords, end: None })
    }

    /// Consume a colon from the input.
    fn match_colon(&mut self) -> (r: ParserResult<PackedToken>)
        requires
            old(self).wf(),
            old(self).scanner_model().buf.len() > 0,
        ensures
            final(self).wf(),
            final(self).strings_view() == old(self).strings_view(),
            final(self).scanner_model() == consume_step(old(self).scanner_model()),
            r matches Ok(pt) && pt.token == Token::Colon && pt.start == old(self).scanner_model().buf[0].coords && pt.end is None,
    {
        let result = match self.scanner.consume() {
            Ok(p) => p,
            Err(e) => {
                proof {
                    assert(false);
                }
                return Err(e);
            },
        };
        Ok(PackedToken { token: Token::Colon, start: result.coords, end: None })
    }

    /// The text currently held in the accumulation buffer.
    pub closed spec fn buffer_view(&self) -> Seq<char> {
        self.buffer@
    }
}

/// Decide whether the sequence holds the given lexeme.
#[allow(dead_code)]
fn contains_lexeme(sq: &Vec<Lexeme>, l: &Lexeme) -> (r: bool)
    ensures
        r == sq@.contains(*l),
{
    let mut i: usize = 0;
    while i < sq.len()
        invariant
            i <= sq@.len(),
            forall|j: int| 0 <= j < i ==> sq@[j] != *l,
        decreases sq@.len() - i,
    {
        if sq[i] == *l {
            proof {
                assert(sq@[i as int] == *l);
            }
            return true;
        }
        i = i + 1;
    }
    false
}

/// A string body that runs into a raw (unescaped) newline, or into the end
/// of the input before its closing quote, fails with an error carrying the
/// `EndOfInput` code at that lexeme's coordinates, rather than producing a
/// truncated token.
pub proof fn lemma_string_body_rejects_newline_and_eof(m: ScannerModel, acc: Seq<char>)
    requires
        (match consume_outcome(m) {
            LexOutcome::Lex(pl) => pl.lexeme is NewLine || pl.lexeme is EndOfInput,
            LexOutcome::Failed(code) => false,
        }),
    ensures
        (match consume_outcome(m) {
            LexOutcome::Lex(pl) => (match string_scan(m, acc, StrState::InBody) {
                StrStep::Fail(code, at, m2) => code == ParserErrorCode::EndOfInput && at
                    == pl.coords,
                _ => false,
            }),
            LexOutcome::Failed(code) => true,
        }),
{
}

/// A string whose body hits a raw newline, or the end of the input, right
/// after the opening quote fails with an `EndOfInput`-coded error and no
/// truncated string token is produced: the string path never yields a
/// token in that case. Hitting either deeper inside the body fails the
/// same way, by the lemma above applied at the state reached there.
pub proof fn lemma_string_step_rejects_newline_and_eof(m: ScannerModel)
    requires
        ({
            let mp = ScannerModel { mode: ScannerMode::ProduceWhitespace, ..m };
            match consume_outcome(consume_step(mp)) {
                LexOutcome::Lex(pl) => pl.lexeme is NewLine || pl.lexeme is EndOfInput,
                LexOutcome::Failed(code) => false,
            }
        }),
    ensures
        (match string_step(m) {
            TokenStep::Fail(code, at, cause, m2) => code == ParserErrorCode::EndOfInput,
            TokenStep::Tok(tm, s, e, m2) => false,
            TokenStep::ScanFail(code, m2) => false,
        }),
{
    let mp = ScannerModel { mode: ScannerMode::ProduceWhitespace, ..m };
    lemma_string_body_rejects_newline_and_eof(consume_step(mp), seq!['"']);
}

/// An escaped double quote inside a string body stays in the payload as the
/// backslash followed by the quote, un-decoded, and does not end the body.
pub proof fn lemma_escaped_quote_kept_raw(m: ScannerModel, acc: Seq<char>)
    requires
        (match consume_outcome(m) {
            LexOutcome::Lex(pl) => pl.lexeme is Escape,
            LexOutcome::Failed(code) => false,
        }),
        (match consume_outcome(consume_step(m)) {
            LexOutcome::Lex(pl) => pl.lexeme is DoubleQuote,
            LexOutcome::Failed(code) => false,
        }),
    ensures
        string_scan(m, acc, StrState::InBody) == string_scan(
            consume_step(consume_step(m)),
            acc.push('\\').push('"'),
            StrState::InBody,
        ),
{
    reveal_with_fuel(string_scan, 3);
}

/// Once the input is exhausted and the lookahead buffer is empty, the lexer
/// keeps producing the `EndOfInput` token without an end coordinate, from
/// an unchanged position: repeated calls are idempotent.
pub proof fn lemma_end_of_input_token_idempotent(m: ScannerModel)
    requires
        m.buf.len() == 0,
        m.bytes.len() == 0,
    ensures
        ({
            let m2 = ScannerModel { mode: ScannerMode::IgnoreWhitespace, ..m };
            &&& next_token_step(m) == TokenStep::Tok(TokenModel::EndOfInput, m.back, None, m2)
            &&& next_token_step(m2) == TokenStep::Tok(TokenModel::EndOfInput, m2.back, None, m2)
        }),
{
    let m2 = ScannerModel { mode: ScannerMode::IgnoreWhitespace, ..m };
    assert(la_fail_state(m2, fill_to(m2, 1)) =~= m2);
}

/// A successful lookahead that the buffer can already satisfy leaves the
/// scanner's bytes, coordinates and buffer exactly as they were.
pub proof fn lemma_lookahead_noop(m: ScannerModel, count: int)
    requires
        m.buf.len() >= count,
    ensures
        ({
            let f = fill_to(m, count);
            f.bytes == m.bytes && f.back == m.back && f.buf == m.buf && f.err is None
        }),
{
}

} // verus!
