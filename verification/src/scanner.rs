//! Scanner with bounded lookahead. The scanner turns the character sequence
//! into a coordinate-tagged lexeme sequence: it is responsible for sourcing
//! individual lexemes which are consumed by the lexer to produce fully
//! formed tokens.
//!
//! The scanner is not internally thread safe: a single instance must not be
//! shared across concurrent callers.

use vstd::prelude::*;

use crate::char_stream::{decode_head, ByteDecode, CharStream, is_stream_error};
use crate::parser_coords::{coords_after, lemma_coords_after_absolute, ParserCoords};
use crate::parser_errors::{
    scanner_error, scanner_error_with_cause, ParserError, ParserErrorCode, ParserResult,
    ParserStage,
};

verus! {

/// A lexeme: the smallest classified unit produced directly from characters.
#[derive(Debug, Copy, Clone, PartialEq, Eq, Structural)]
pub enum Lexeme {
    /// End of the input
    EndOfInput,
    /// Start of an object
    LeftBrace,
    /// End of an object
    RightBrace,
    /// Start of an array
    LeftBracket,
    /// End of an array
    RightBracket,
    /// Separates pairs
    Colon,
    /// Delineates things
    Comma,
    /// Double quote
    DoubleQuote,
    /// Single quote
    SingleQuote,
    /// Whitespace
    Whitespace(char),
    /// Newline, treated separately from other whitespace
    NewLine,
    /// Escape character (backslash)
    Escape,
    /// Alphabetic (Unicode) character
    Alphabetic(char),
    /// A non-alphabetic (Unicode) character
    NonAlphabetic(char),
    /// Numeric character
    Digit(char),
    /// The plus character
    Plus,
    /// Minus character
    Minus,
    /// A catch-all for non-recognised characters
    NotRecognised(char),
}

/// A lexeme packed together with the input coordinates it was produced at.
#[derive(Debug, Copy, Clone, PartialEq, Eq, Structural)]
pub struct PackedLexeme {
    /// The [Lexeme]
    pub lexeme: Lexeme,
    /// The coordinates for the lexeme
    pub coords: ParserCoords,
}

/// Controls the handling of whitespace during lexeme lookahead and consumption.
#[derive(Debug, Copy, Clone, PartialEq, Eq, Structural)]
pub enum ScannerMode {
    /// Whitespace characters are silently skipped while decoding and never
    /// surface as lexemes.
    IgnoreWhitespace,
    /// Every whitespace character, and newline specifically, surfaces as its
    /// own lexeme.
    ProduceWhitespace,
}

/// The characters of the Unicode `White_Space` property, which is what
/// whitespace skipping goes by.
pub open spec fn is_ws_char(c: char) -> bool {
    let u = c as u32;
    ||| u == 0x09
    ||| u == 0x0A
    ||| u == 0x0B
    ||| u == 0x0C
    ||| u == 0x0D
    ||| u == 0x20
    ||| u == 0x85
    ||| u == 0xA0
    ||| u == 0x1680
    ||| (0x2000 <= u && u <= 0x200A)
    ||| u == 0x2028
    ||| u == 0x2029
    ||| u == 0x202F
    ||| u == 0x205F
    ||| u == 0x3000
}

/// Decide whether a character has the Unicode `White_Space` property.
pub fn is_whitespace_char(c: char) -> (r: bool)
    ensures
        r == is_ws_char(c),
{
    let u = c as u32;
    u == 0x09 || u == 0x0A || u == 0x0B || u == 0x0C || u == 0x0D || u == 0x20 || u == 0x85
        || u == 0xA0 || u == 0x1680 || (0x2000 <= u && u <= 0x200A) || u == 0x2028 || u == 0x2029
        || u == 0x202F || u == 0x205F || u == 0x3000
}

/// An ASCII decimal digit.
pub open spec fn is_digit_char(c: char) -> bool {
    0x30 <= c as u32 && c as u32 <= 0x39
}

/// Decide whether a character is an ASCII decimal digit.
pub fn is_ascii_digit_char(c: char) -> (r: bool)
    ensures
        r == is_digit_char(c),
{
    let u = c as u32;
    0x30 <= u && u <= 0x39
}

/// Whether a character has the Unicode `Alphabetic` property. The property's
/// table is far too large to restate, so it is only named here; the facts
/// beside it are carried by the function below.
pub uninterp spec fn unicode_alphabetic(c: char) -> bool;

/// Relies on `char::is_alphabetic`: whether the character has the Unicode
/// `Alphabetic` property, a function of the character alone. ASCII letters
/// have the property and ASCII digits do not.
#[verifier::external_body]
pub fn char_is_alphabetic(c: char) -> (r: bool)
    ensures
        r == unicode_alphabetic(c),
        (0x41 <= c as u32 && c as u32 <= 0x5A) || (0x61 <= c as u32 && c as u32 <= 0x7A) ==> r,
        0x30 <= c as u32 && c as u32 <= 0x39 ==> !r,
{
    c.is_alphabetic()
}

/// The fixed priority table classifying one decoded character into a lexeme:
/// the single-character structural markers first, then plus and minus, then
/// remaining whitespace, then ASCII digits, then Unicode alphabetics, then
/// the non-alphabetic catch-all.
pub open spec fn lexeme_for(c: char) -> Lexeme {
    if c == '{' {
        Lexeme::LeftBrace
    } else if c == '}' {
        Lexeme::RightBrace
    } else if c == '[' {
        Lexeme::LeftBracket
    } else if c == ']' {
        Lexeme::RightBracket
    } else if c == ':' {
        Lexeme::Colon
    } else if c == ',' {
        Lexeme::Comma
    } else if c == '\\' {
        Lexeme::Escape
    } else if c == '"' {
        Lexeme::DoubleQuote
    } else if c == '\'' {
        Lexeme::SingleQuote
    } else if c == '+' {
        Lexeme::Plus
    } else if c == '-' {
        Lexeme::Minus
    } else if c == '\n' {
        Lexeme::NewLine
    } else if is_ws_char(c) {
        Lexeme::Whitespace(c)
    } else if is_digit_char(c) {
        Lexeme::Digit(c)
    } else if unicode_alphabetic(c) {
        Lexeme::Alphabetic(c)
    } else {
        Lexeme::NonAlphabetic(c)
    }
}

/// Classify one decoded character into a lexeme.
fn classify_char(c: char) -> (l: Lexeme)
    ensures
        l == lexeme_for(c),
{
    match c {
        '{' => Lexeme::LeftBrace,
        '}' => Lexeme::RightBrace,
        '[' => Lexeme::LeftBracket,
        ']' => Lexeme::RightBracket,
        ':' => Lexeme::Colon,
        ',' => Lexeme::Comma,
        '\\' => Lexeme::Escape,
        '"' => Lexeme::DoubleQuote,
        '\'' => Lexeme::SingleQuote,
        '+' => Lexeme::Plus,
        '-' => Lexeme::Minus,
        '\n' => Lexeme::NewLine,
        _ => {
            if is_whitespace_char(c) {
                Lexeme::Whitespace(c)
            } else if is_ascii_digit_char(c) {
                Lexeme::Digit(c)
            } else if char_is_alphabetic(c) {
                Lexeme::Alphabetic(c)
            } else {
                Lexeme::NonAlphabetic(c)
            }
        },
    }
}

/// The abstract state of a scanner: the bytes still to be decoded, the two
/// coordinate markers, the lookahead buffer, and the whitespace mode.
pub struct ScannerModel {
    /// Bytes not yet decoded from the underlying stream
    pub bytes: Seq<u8>,
    /// Coordinates of the most recently decoded character
    pub back: ParserCoords,
    /// Coordinates of the most recently handed-out lexeme
    pub front: ParserCoords,
    /// The lookahead buffer, a FIFO of already-decoded lexemes
    pub buf: Seq<PackedLexeme>,
    /// The current whitespace handling mode
    pub mode: ScannerMode,
}

/// The result of advancing over the input by one character: the first
/// character that should become a lexeme (in `IgnoreWhitespace` mode,
/// whitespace is looped past, with coordinates still advancing), or the end
/// of the input, or a decode failure carried up from the stream.
pub enum AdvanceStep {
    /// A character to classify, the coordinates after it, and the bytes left
    Found(char, ParserCoords, Seq<u8>),
    /// The input is exhausted; coordinates after any skipped whitespace
    AtEnd(ParserCoords, Seq<u8>),
    /// The stream failed with the given code; coordinates and remaining bytes
    Failed(ParserErrorCode, ParserCoords, Seq<u8>),
}

/// What one call of the scanner's character advance does to the stream state.
pub open spec fn advance_step(bs: Seq<u8>, back: ParserCoords, mode: ScannerMode) -> AdvanceStep
    decreases bs.len(),
{
    match decode_head(bs) {
        ByteDecode::Empty => AdvanceStep::AtEnd(back, bs),
        ByteDecode::Truncated(k) => AdvanceStep::Failed(
            ParserErrorCode::StreamFailure,
            back,
            bs.skip(k as int),
        ),
        ByteDecode::Malformed(k) => AdvanceStep::Failed(
            ParserErrorCode::InvalidByteSequence,
            back,
            bs.skip(k as int),
        ),
        ByteDecode::Decoded(c, k) => {
            let back2 = back.stepped(c);
            if mode == ScannerMode::IgnoreWhitespace && is_ws_char(c) {
                advance_step(bs.skip(k as int), back2, mode)
            } else {
                AdvanceStep::Found(c, back2, bs.skip(k as int))
            }
        },
    }
}

/// The outcome a caller of `consume` sees: a lexeme (end of input surfaces
/// as a successful `EndOfInput` lexeme), or a failure with the stream-stage
/// code that caused it.
pub enum LexOutcome {
    /// The lexeme handed out
    Lex(PackedLexeme),
    /// A decode failure, tagged with the stream-stage code underneath it
    Failed(ParserErrorCode),
}

/// The scanner state after one `consume` call.
pub open spec fn consume_step(m: ScannerModel) -> ScannerModel {
    if m.buf.len() > 0 {
        ScannerModel { front: m.buf[0].coords, buf: m.buf.skip(1), ..m }
    } else {
        match advance_step(m.bytes, m.back, m.mode) {
            AdvanceStep::Found(c, back2, bs2) => ScannerModel { bytes: bs2, back: back2, ..m },
            AdvanceStep::AtEnd(back2, bs2) => ScannerModel { bytes: bs2, back: back2, ..m },
            AdvanceStep::Failed(code, back2, bs2) => ScannerModel { bytes: bs2, back: back2, ..m },
        }
    }
}

/// What one `consume` call returns.
pub open spec fn consume_outcome(m: ScannerModel) -> LexOutcome {
    if m.buf.len() > 0 {
        LexOutcome::Lex(m.buf[0])
    } else {
        match advance_step(m.bytes, m.back, m.mode) {
            AdvanceStep::Found(c, back2, bs2) => LexOutcome::Lex(
                PackedLexeme { lexeme: lexeme_for(c), coords: back2 },
            ),
            AdvanceStep::AtEnd(back2, bs2) => LexOutcome::Lex(
                PackedLexeme { lexeme: Lexeme::EndOfInput, coords: back2 },
            ),
            AdvanceStep::Failed(code, back2, bs2) => LexOutcome::Failed(code),
        }
    }
}

/// The scanner state after `discard(n)`: `consume` applied `n` times, with
/// every result dropped.
pub open spec fn discard_steps(m: ScannerModel, n: int) -> ScannerModel
    decreases n,
{
    if n <= 0 {
        m
    } else {
        discard_steps(consume_step(m), n - 1)
    }
}

/// The scanner state and error flag after filling the lookahead buffer up to
/// `count` entries: lexemes are decoded and appended until the buffer is
/// long enough, the input ends, or decoding fails. On failure the buffer
/// retains whatever was successfully buffered.
pub struct FillResult {
    /// Bytes left after filling
    pub bytes: Seq<u8>,
    /// The back coordinates after filling
    pub back: ParserCoords,
    /// The buffer after filling
    pub buf: Seq<PackedLexeme>,
    /// `None` on success; otherwise why filling stopped short
    pub err: Option<ScanErr>,
}

/// Why a lookahead fill stopped short of its target.
pub enum ScanErr {
    /// The input ended before enough lexemes were buffered
    End,
    /// The stream failed with the given stream-stage code
    Stream(ParserErrorCode),
}

/// What filling the lookahead buffer to `count` entries does.
pub open spec fn fill_steps(
    bytes: Seq<u8>,
    back: ParserCoords,
    buf: Seq<PackedLexeme>,
    mode: ScannerMode,
    count: int,
) -> FillResult
    decreases count - buf.len(),
{
    if buf.len() >= count {
        FillResult { bytes, back, buf, err: None }
    } else {
        match advance_step(bytes, back, mode) {
            AdvanceStep::Found(c, back2, bs2) => fill_steps(
                bs2,
                back2,
                buf.push(PackedLexeme { lexeme: lexeme_for(c), coords: back2 }),
                mode,
                count,
            ),
            AdvanceStep::AtEnd(back2, bs2) => FillResult {
                bytes: bs2,
                back: back2,
                buf,
                err: Some(ScanErr::End),
            },
            AdvanceStep::Failed(code, back2, bs2) => FillResult {
                bytes: bs2,
                back: back2,
                buf,
                err: Some(ScanErr::Stream(code)),
            },
        }
    }
}

/// The error the scanner's advance produces when the stream fails: a
/// scanner-stage `StreamFailure` at the current coordinates, with the
/// stream-stage cause attached.
pub open spec fn is_advance_error(e: ParserError, inner_code: ParserErrorCode, at: ParserCoords) -> bool {
    &&& e.stage == ParserStage::Scanner
    &&& e.code == ParserErrorCode::StreamFailure
    &&& e.coords == Some(at)
    &&& e.inner matches Some(ie) && is_stream_error(*ie, inner_code)
}

/// The error the scanner's advance produces at the end of the input.
pub open spec fn is_scanner_eoi_error(e: ParserError) -> bool {
    &&& e.stage == ParserStage::Scanner
    &&& e.code == ParserErrorCode::EndOfInput
    &&& e.coords is None
    &&& e.inner is None
}

/// The error `consume` produces when decoding fails: a scanner-stage
/// `ExpectedLexeme` wrapping the advance failure.
pub open spec fn is_consume_error(e: ParserError, inner_code: ParserErrorCode, at: ParserCoords) -> bool {
    &&& e.stage == ParserStage::Scanner
    &&& e.code == ParserErrorCode::ExpectedLexeme
    &&& e.coords == Some(at)
    &&& e.inner matches Some(ie) && is_advance_error(*ie, inner_code, at)
}

/// A scanner with support for limited lookahead.
#[derive(Debug)]
pub struct Scanner {
    /// Lexeme FIFO buffer, used to implement lookaheads
    buffer: Vec<PackedLexeme>,
    /// The stream used for sourcing characters from the input
    stream: CharStream,
    /// Coordinates of the most recently decoded character
    back_coords: ParserCoords,
    /// Coordinates of the most recently handed-out lexeme
    front_coords: ParserCoords,
    /// How whitespace is currently being handled
    mode: ScannerMode,
}

impl Scanner {
    /// The abstract state of this scanner.
    pub closed spec fn model(&self) -> ScannerModel {
        ScannerModel {
            bytes: self.stream.remaining(),
            back: self.back_coords,
            front: self.front_coords,
            buf: self.buffer@,
            mode: self.mode,
        }
    }

    /// The coordinates stay bounded by the bytes consumed so far, which is
    /// what keeps all coordinate arithmetic within machine limits.
    pub closed spec fn wf(&self) -> bool {
        &&& self.stream.wf()
        &&& self.back_coords.absolute <= self.stream.consumed()
        &&& self.back_coords.line <= self.stream.consumed() + 1
        &&& self.back_coords.column <= self.stream.consumed()
    }

    /// Create a new scanner instance over the given input bytes, positioned
    /// at the start of the input, with an empty lookahead buffer, ignoring
    /// whitespace.
    pub fn new(data: Vec<u8>) -> (r: Scanner)
        requires
            data@.len() < usize::MAX,
        ensures
            r.wf(),
            r.model() == (ScannerModel {
                bytes: data@,
                back: ParserCoords::start(),
                front: ParserCoords::start(),
                buf: Seq::<PackedLexeme>::empty(),
                mode: ScannerMode::IgnoreWhitespace,
            }),
    {
        let r = Scanner {
            buffer: Vec::new(),
            stream: CharStream::new(data),
            back_coords: ParserCoords { absolute: 0, line: 1, column: 0 },
            front_coords: ParserCoords { absolute: 0, line: 1, column: 0 },
            mode: ScannerMode::IgnoreWhitespace,
        };
        proof {
            assert(r.model().buf =~= Seq::<PackedLexeme>::empty());
        }
        r
    }

    /// Switch the whitespace handling mode for subsequent operations;
    /// returns the scanner again for chaining.
    pub fn with_mode(&mut self, mode: ScannerMode) -> (r: &mut Self)
        ensures
            (*r).model() == (ScannerModel { mode, ..old(self).model() }),
            old(self).wf() ==> (*r).wf(),
            *final(self) == *final(r),
    {
        self.mode = mode;
        self
    }

    /// Get the coordinates of the most recently decoded character.
    pub fn back_coords(&self) -> (r: ParserCoords)
        ensures
            r == self.model().back,
    {
        self.back_coords
    }

    /// Get the coordinates of the most recently handed-out lexeme.
    pub fn front_coords(&self) -> (r: ParserCoords)
        ensures
            r == self.model().front,
    {
        self.front_coords
    }

    /// Advance over whitespace as the mode dictates and produce the next
    /// character, updating the back coordinates for every decoded character.
    #[verifier::loop_isolation(false)]
    fn advance(&mut self) -> (r: ParserResult<char>)
        requires
            old(self).wf(),
        ensures
            final(self).wf(),
            final(self).model().buf == old(self).model().buf,
            final(self).model().front == old(self).model().front,
            final(self).model().mode == old(self).model().mode,
            (match advance_step(old(self).model().bytes, old(self).model().back, old(self).model().mode) {
                AdvanceStep::Found(c, back2, bs2) => {
                    &&& r matches Ok(cc) && cc == c
                    &&& final(self).model().back == back2
                    &&& final(self).model().bytes == bs2
                },
                AdvanceStep::AtEnd(back2, bs2) => {
                    &&& r matches Err(e) && is_scanner_eoi_error(e)
                    &&& final(self).model().back == back2
                    &&& final(self).model().bytes == bs2
                },
                AdvanceStep::Failed(code, back2, bs2) => {
                    &&& r matches Err(e) && is_advance_error(e, code, back2)
                    &&& final(self).model().back == back2
                    &&& final(self).model().bytes == bs2
                },
            }),
    {
        let ghost m0 = old(self).model();
        loop
            invariant
                self.wf(),
                self.model().buf == m0.buf,
                self.model().front == m0.front,
                self.model().mode == m0.mode,
                advance_step(self.model().bytes, self.model().back, self.model().mode)
                    == advance_step(m0.bytes, m0.back, m0.mode),
            decreases self.model().bytes.len(),
        {
            let ghost pre = self.model();
            proof {
                self.stream.lemma_wf();
            }
            match self.stream.next_char() {
                Ok(c) => {
                    self.back_coords.absolute = self.back_coords.absolute + 1;
                    self.back_coords.column = self.back_coords.column + 1;
                    if c == '\n' {
                        self.back_coords.line = self.back_coords.line + 1;
                        self.back_coords.column = 0;
                    }
                    proof {
                        assert(self.back_coords == pre.back.stepped(c));
                    }
                    match self.mode {
                        ScannerMode::IgnoreWhitespace => {
                            if !is_whitespace_char(c) {
                                return Ok(c);
                            }
                        },
                        ScannerMode::ProduceWhitespace => {
                            return Ok(c);
                        },
                    }
                },
                Err(err) => {
                    if matches!(err.code, ParserErrorCode::EndOfInput) {
                        return Err(
                            scanner_error(ParserErrorCode::EndOfInput, "end of input reached"),
                        );
                    } else {
                        return Err(
                            scanner_error_with_cause(
                                ParserErrorCode::StreamFailure,
                                "next_char failed",
                                self.back_coords,
                                err,
                            ),
                        );
                    }
                },
            }
        }
    }

    /// Take the next character from the underlying stream and convert it
    /// into a lexeme packed with the current coordinates.
    fn char_to_lexeme(&mut self) -> (r: ParserResult<PackedLexeme>)
        requires
            old(self).wf(),
        ensures
            final(self).wf(),
            final(self).model().buf == old(self).model().buf,
            final(self).model().front == old(self).model().front,
            final(self).model().mode == old(self).model().mode,
            (match advance_step(old(self).model().bytes, old(self).model().back, old(self).model().mode) {
                AdvanceStep::Found(c, back2, bs2) => {
                    &&& r matches Ok(pl) && pl == (PackedLexeme {
                        lexeme: lexeme_for(c),
                        coords: back2,
                    })
                    &&& final(self).model().back == back2
                    &&& final(self).model().bytes == bs2
                },
                AdvanceStep::AtEnd(back2, bs2) => {
                    &&& r matches Err(e) && is_scanner_eoi_error(e)
                    &&& final(self).model().back == back2
                    &&& final(self).model().bytes == bs2
                },
                AdvanceStep::Failed(code, back2, bs2) => {
                    &&& r matches Err(e) && is_advance_error(e, code, back2)
                    &&& final(self).model().back == back2
                    &&& final(self).model().bytes == bs2
                },
            }),
    {
        match self.advance() {
            Ok(c) => {
                let lexeme = classify_char(c);
                Ok(PackedLexeme { lexeme, coords: self.back_coords })
            },
            Err(err) => Err(err),
        }
    }

    /// Consume the next lexeme: pop the front of the lookahead buffer if it
    /// is non-empty, otherwise decode directly from the stream. The end of
    /// the input is not an error here: it surfaces as a successful
    /// `EndOfInput` lexeme, and repeated calls keep returning it. Any
    /// genuine decode failure is wrapped with stage `Scanner`, code
    /// `ExpectedLexeme`, at the current back coordinates.
    pub fn consume(&mut self) -> (r: ParserResult<PackedLexeme>)
        requires
            old(self).wf(),
        ensures
            final(self).wf(),
            final(self).model() == consume_step(old(self).model()),
            (match consume_outcome(old(self).model()) {
                LexOutcome::Lex(pl) => r matches Ok(l) && l == pl,
                LexOutcome::Failed(code) => r matches Err(e) && is_consume_error(
                    e,
                    code,
                    consume_step(old(self).model()).back,
                ),
            }),
    {
        if self.buffer.len() > 0 {
            let lex = self.buffer.remove(0);
            self.front_coords = lex.coords;
            proof {
                assert(final(self).model().buf =~= old(self).model().buf.skip(1));
            }
            Ok(lex)
        } else {
            match self.char_to_lexeme() {
                Ok(lex) => Ok(lex),
                Err(err) => {
                    if matches!(err.code, ParserErrorCode::EndOfInput) {
                        Ok(PackedLexeme { lexeme: Lexeme::EndOfInput, coords: self.back_coords })
                    } else {
                        let at = self.back_coords;
                        Err(
                            scanner_error_with_cause(
                                ParserErrorCode::ExpectedLexeme,
                                "failed to convert a char to a valid lexeme",
                                at,
                                err,
                            ),
                        )
                    }
                },
            }
        }
    }

    /// Consume and drop `count` lexemes, returning the front coordinates of
    /// the input afterwards.
    #[verifier::loop_isolation(false)]
    pub fn discard(&mut self, count: usize) -> (r: ParserCoords)
        requires
            old(self).wf(),
        ensures
            final(self).wf(),
            final(self).model() == discard_steps(old(self).model(), count as int),
            r == final(self).model().front,
    {
        let mut i: usize = 0;
        while i < count
            invariant
                self.wf(),
                i <= count,
                discard_steps(self.model(), count - i) == discard_steps(
                    old(self).model(),
                    count as int,
                ),
            decreases count - i,
        {
            let ghost pre = self.model();
            let _ = self.consume();
            proof {
                assert(discard_steps(pre, count - i) == discard_steps(self.model(), count - i - 1));
            }
            i = i + 1;
        }
        self.front_coords
    }

    /// Look ahead `count` lexemes (`count` is 1-indexed and must be at least
    /// one) without consuming anything: the buffer is topped up to at least
    /// `count` entries and a copy of the `count`-th entry is returned. On a
    /// decode failure while filling, the buffer keeps whatever was
    /// successfully buffered and the causing error is returned. The call is
    /// non-destructive and idempotent: two consecutive lookaheads with no
    /// consume between them return identical results.
    #[verifier::loop_isolation(false)]
    pub fn lookahead(&mut self, count: usize) -> (r: ParserResult<PackedLexeme>)
        requires
            old(self).wf(),
            count >= 1,
        ensures
            final(self).wf(),
            ({
                let f = fill_steps(
                    old(self).model().bytes,
                    old(self).model().back,
                    old(self).model().buf,
                    old(self).model().mode,
                    count as int,
                );
                match f.err {
                    None => {
                        &&& r matches Ok(l) && l == f.buf[count - 1]
                        &&& final(self).model() == (ScannerModel {
                            bytes: f.bytes,
                            back: f.back,
                            front: f.buf[0].coords,
                            buf: f.buf,
                            mode: old(self).model().mode,
                        })
                    },
                    Some(ScanErr::End) => {
                        &&& r matches Err(e) && is_scanner_eoi_error(e)
                        &&& final(self).model() == (ScannerModel {
                            bytes: f.bytes,
                            back: f.back,
                            front: old(self).model().front,
                            buf: f.buf,
                            mode: old(self).model().mode,
                        })
                    },
                    Some(ScanErr::Stream(code)) => {
                        &&& r matches Err(e) && is_advance_error(e, code, f.back)
                        &&& final(self).model() == (ScannerModel {
                            bytes: f.bytes,
                            back: f.back,
                            front: old(self).model().front,
                            buf: f.buf,
                            mode: old(self).model().mode,
                        })
                    },
                }
            }),
    {
        let ghost m0 = old(self).model();
        let mut err: Option<ParserError> = None;
        while err.is_none() && self.buffer.len() < count
            invariant
                self.wf(),
                self.model().front == m0.front,
                self.model().mode == m0.mode,
                (match err {
                    None => fill_steps(
                        self.model().bytes,
                        self.model().back,
                        self.model().buf,
                        m0.mode,
                        count as int,
                    ) == fill_steps(m0.bytes, m0.back, m0.buf, m0.mode, count as int),
                    Some(e) => {
                        let f = fill_steps(m0.bytes, m0.back, m0.buf, m0.mode, count as int);
                        &&& self.model().bytes == f.bytes
                        &&& self.model().back == f.back
                        &&& self.model().buf == f.buf
                        &&& match f.err {
                            Some(ScanErr::End) => is_scanner_eoi_error(e),
                            Some(ScanErr::Stream(code)) => is_advance_error(e, code, f.back),
                            None => false,
                        }
                    },
                }),
            decreases (count - self.buffer.len()) + (if err is None { 1int } else { 0int }),
        {
            let ghost pre = self.model();
            match self.char_to_lexeme() {
                Ok(l) => {
                    self.buffer.push(l);
                    proof {
                        assert(self.model().buf =~= pre.buf.push(l));
                    }
                },
                Err(e) => {
                    err = Some(e);
                },
            }
        }
        match err {
            None => {
                let l0 = self.buffer[0];
                self.front_coords = l0.coords;
                let lex = self.buffer[count - 1];
                Ok(lex)
            },
            Some(e) => Err(e),
        }
    }
}

/// Two consecutive lookaheads with no consume between them see the same
/// scanner state and return the same lexeme: once a successful fill has
/// brought the buffer up to `count` entries, filling again changes nothing.
pub proof fn lemma_lookahead_idempotent(m: ScannerModel, count: int)
    requires
        count >= 1,
        fill_steps(m.bytes, m.back, m.buf, m.mode, count).err is None,
    ensures
        ({
            let f = fill_steps(m.bytes, m.back, m.buf, m.mode, count);
            let m2 = ScannerModel {
                bytes: f.bytes,
                back: f.back,
                front: f.buf[0].coords,
                buf: f.buf,
                mode: m.mode,
            };
            let f2 = fill_steps(m2.bytes, m2.back, m2.buf, m2.mode, count);
            &&& f2.err is None
            &&& f2.buf == f.buf
            &&& f2.bytes == f.bytes
            &&& f2.back == f.back
            &&& f2.buf[count - 1] == f.buf[count - 1]
        }),
    decreases count - m.buf.len(),
{
    if m.buf.len() >= count {
    } else {
        match advance_step(m.bytes, m.back, m.mode) {
            AdvanceStep::Found(c, back2, bs2) => {
                let m1 = ScannerModel {
                    bytes: bs2,
                    back: back2,
                    front: m.front,
                    buf: m.buf.push(PackedLexeme { lexeme: lexeme_for(c), coords: back2 }),
                    mode: m.mode,
                };
                lemma_lookahead_idempotent(m1, count);
            },
            AdvanceStep::AtEnd(back2, bs2) => {
                assert(false);
            },
            AdvanceStep::Failed(code, back2, bs2) => {
                assert(false);
            },
        }
    }
}

/// After a successful fill to `count` entries, the buffer holds at least
/// `count` lexemes, and consuming hands them out front first, in exactly the
/// order they were buffered: the `i`-th consume after the lookahead returns
/// the `i`-th buffered lexeme.
pub proof fn lemma_consume_returns_buffered_in_order(m: ScannerModel, i: int)
    requires
        0 <= i < m.buf.len(),
    ensures
        consume_outcome(discard_steps(m, i)) == LexOutcome::Lex(m.buf[i]),
    decreases i,
{
    if i == 0 {
    } else {
        lemma_consume_returns_buffered_in_order(consume_step(m), i - 1);
        lemma_discard_unfold_left(m, i);
    }
}

/// Discarding `n >= 1` lexemes is one consume followed by discarding `n - 1`.
proof fn lemma_discard_unfold_left(m: ScannerModel, n: int)
    requires
        n >= 1,
    ensures
        discard_steps(m, n) == discard_steps(consume_step(m), n - 1),
{
}

/// The characters the scanner's advance decodes during one call: any
/// whitespace it loops past in `IgnoreWhitespace` mode, followed by the
/// character that surfaces, if one does.
pub open spec fn advance_trace(bs: Seq<u8>, mode: ScannerMode) -> Seq<char>
    decreases bs.len(),
{
    match decode_head(bs) {
        ByteDecode::Decoded(c, k) => {
            if mode == ScannerMode::IgnoreWhitespace && is_ws_char(c) {
                seq![c] + advance_trace(bs.skip(k as int), mode)
            } else {
                seq![c]
            }
        },
        _ => Seq::<char>::empty(),
    }
}

/// Across a whole advance, whatever the mode and however it ends, the back
/// coordinates come out as the single-character coordinate steps folded
/// over exactly the characters decoded: every consumed character advances
/// the coordinates by one step, skipped whitespace included.
pub proof fn lemma_advance_coords_per_char(bs: Seq<u8>, back: ParserCoords, mode: ScannerMode)
    ensures
        (match advance_step(bs, back, mode) {
            AdvanceStep::Found(c, b2, bs2) => b2 == coords_after(
                advance_trace(bs, mode),
                back,
            ),
            AdvanceStep::AtEnd(b2, bs2) => b2 == coords_after(
                advance_trace(bs, mode),
                back,
            ),
            AdvanceStep::Failed(code, b2, bs2) => b2 == coords_after(
                advance_trace(bs, mode),
                back,
            ),
        }),
    decreases bs.len(),
{
    let trace = advance_trace(bs, mode);
    match decode_head(bs) {
        ByteDecode::Decoded(c, k) => {
            assert(trace.first() == c);
            if mode == ScannerMode::IgnoreWhitespace && is_ws_char(c) {
                lemma_advance_coords_per_char(bs.skip(k as int), back.stepped(c), mode);
                assert(trace.drop_first() =~= advance_trace(bs.skip(k as int), mode));
                assert(coords_after(trace, back) == coords_after(
                    trace.drop_first(),
                    back.stepped(c),
                ));
            } else {
                assert(trace.drop_first() =~= Seq::<char>::empty());
                assert(coords_after(trace, back) == coords_after(
                    trace.drop_first(),
                    back.stepped(c),
                ));
                assert(coords_after(trace.drop_first(), back.stepped(c)) == back.stepped(c));
            }
        },
        _ => {
            assert(trace =~= Seq::<char>::empty());
            assert(coords_after(trace, back) == back);
        },
    }
}

/// The absolute offset grows by exactly one per character the advance
/// decodes, within machine limits: whitespace that is skipped still counts.
pub proof fn lemma_advance_absolute_counts_chars(
    bs: Seq<u8>,
    back: ParserCoords,
    mode: ScannerMode,
)
    requires
        back.absolute + advance_trace(bs, mode).len() <= usize::MAX,
    ensures
        (match advance_step(bs, back, mode) {
            AdvanceStep::Found(c, b2, bs2) => b2.absolute == back.absolute + advance_trace(
                bs,
                mode,
            ).len(),
            AdvanceStep::AtEnd(b2, bs2) => b2.absolute == back.absolute + advance_trace(
                bs,
                mode,
            ).len(),
            AdvanceStep::Failed(code, b2, bs2) => b2.absolute == back.absolute + advance_trace(
                bs,
                mode,
            ).len(),
        }),
{
    lemma_advance_coords_per_char(bs, back, mode);
    lemma_coords_after_absolute(advance_trace(bs, mode), back);
}

/// In `IgnoreWhitespace` mode, with nothing buffered from an earlier mode,
/// `consume` never hands out a whitespace or newline lexeme: whitespace is
/// skipped entirely (it still advances the back coordinates) and the first
/// non-whitespace character is the one classified.
pub proof fn lemma_consume_ignores_whitespace(m: ScannerModel)
    requires
        m.mode == ScannerMode::IgnoreWhitespace,
        m.buf.len() == 0,
    ensures
        (match consume_outcome(m) {
            LexOutcome::Lex(pl) => !(pl.lexeme is Whitespace) && !(pl.lexeme is NewLine),
            LexOutcome::Failed(code) => true,
        }),
{
    lemma_ignore_mode_skips_whitespace(m.bytes, m.back);
}

/// Once the input is exhausted and the lookahead buffer is empty, consuming
/// returns the `EndOfInput` lexeme at the current coordinates and changes
/// nothing, so repeated calls keep returning it.
pub proof fn lemma_consume_idempotent_at_end(m: ScannerModel)
    requires
        m.buf.len() == 0,
        m.bytes.len() == 0,
    ensures
        consume_step(m) == m,
        consume_outcome(m) == LexOutcome::Lex(
            PackedLexeme { lexeme: Lexeme::EndOfInput, coords: m.back },
        ),
{
    assert(consume_step(m) =~= m);
}

/// In `IgnoreWhitespace` mode the scanner never hands out a whitespace or
/// newline lexeme: whatever character the advance finds is not whitespace,
/// so no whitespace character ever surfaces.
pub proof fn lemma_ignore_mode_skips_whitespace(bs: Seq<u8>, back: ParserCoords)
    ensures
        (match advance_step(bs, back, ScannerMode::IgnoreWhitespace) {
            AdvanceStep::Found(c, back2, bs2) => {
                &&& !is_ws_char(c)
                &&& !(lexeme_for(c) is Whitespace)
                &&& !(lexeme_for(c) is NewLine)
            },
            AdvanceStep::AtEnd(back2, bs2) => true,
            AdvanceStep::Failed(code, back2, bs2) => true,
        }),
    decreases bs.len(),
{
    match decode_head(bs) {
        ByteDecode::Decoded(c, k) => {
            if is_ws_char(c) {
                lemma_ignore_mode_skips_whitespace(bs.skip(k as int), back.stepped(c));
            }
        },
        _ => {},
    }
}

/// In `ProduceWhitespace` mode every decoded character surfaces as its own
/// lexeme: a whitespace character becomes a `Whitespace` lexeme carrying
/// that character, except a newline, which becomes the distinct `NewLine`
/// lexeme.
pub proof fn lemma_produce_mode_emits_whitespace(bs: Seq<u8>, back: ParserCoords)
    ensures
        (match decode_head(bs) {
            ByteDecode::Decoded(c, k) => {
                &&& advance_step(bs, back, ScannerMode::ProduceWhitespace)
                    == AdvanceStep::Found(c, back.stepped(c), bs.skip(k as int))
                &&& c == '\n' ==> lexeme_for(c) == Lexeme::NewLine
                &&& is_ws_char(c) && c != '\n' && !is_structural_char(c) ==> lexeme_for(c)
                    == Lexeme::Whitespace(c)
            },
            _ => true,
        }),
{
}

/// The characters the classification table maps to fixed single-character
/// lexemes before the whitespace bucket is consulted.
pub open spec fn is_structural_char(c: char) -> bool {
    ||| c == '{'
    ||| c == '}'
    ||| c == '['
    ||| c == ']'
    ||| c == ':'
    ||| c == ','
    ||| c == '\\'
    ||| c == '"'
    ||| c == '\''
    ||| c == '+'
    ||| c == '-'
}

} // verus!
