//! General error types for the tokenizer stages.
//!
//! Each stage wraps the error of the layer below it as its `inner` cause and
//! re-tags the error with its own stage, attaching the coordinate at which
//! the failure was detected.

use vstd::prelude::*;

use crate::parser_coords::ParserCoords;

verus! {

/// Global result type used throughout the parser stages.
pub type ParserResult<T> = Result<T, ParserError>;

/// Enumeration of the various different parser stages that can produce an error.
#[derive(Debug, Copy, Clone, PartialEq, Eq, Structural)]
pub enum ParserStage {
    /// The stream stage of the parser
    Stream,
    /// The scanning stage of the parser
    Scanner,
    /// The lexer stage of the parser
    Lexer,
    /// The parsing/AST construction stage of the parser
    Parser,
}

/// A global enumeration of error codes.
#[derive(Debug, Copy, Clone, PartialEq, Eq, Structural)]
pub enum ParserErrorCode {
    EndOfInput,
    IOError,
    InvalidByteSequence,
    InvalidCharSequence,
    InvalidCharacter,
    InvalidLexeme,
    MatchFailed,
    ExpectedLexeme,
    ScannerFailure,
    StreamFailure,
}

/// The general error structure. Errors form a singly-linked cause chain via
/// `inner`; each error owns its chain outright.
#[derive(Debug)]
pub struct ParserError {
    /// The originating stage for the error
    pub stage: ParserStage,
    /// The global error code for the error
    pub code: ParserErrorCode,
    /// Additional information about the error
    pub message: &'static str,
    /// Optional parser coordinates
    pub coords: Option<ParserCoords>,
    /// An optional inner error
    pub inner: Option<Box<ParserError>>,
}

/// Produce a stream-stage error, which carries neither coordinates nor a cause.
pub fn stream_error(code: ParserErrorCode, message: &'static str) -> (r: ParserError)
    ensures
        r == (ParserError {
            stage: ParserStage::Stream,
            code,
            message,
            coords: None,
            inner: None,
        }),
{
    ParserError { stage: ParserStage::Stream, code, message, coords: None, inner: None }
}

/// Produce a scanner-stage error without coordinates or a cause.
pub fn scanner_error(code: ParserErrorCode, message: &'static str) -> (r: ParserError)
    ensures
        r == (ParserError {
            stage: ParserStage::Scanner,
            code,
            message,
            coords: None,
            inner: None,
        }),
{
    ParserError { stage: ParserStage::Scanner, code, message, coords: None, inner: None }
}

/// Produce a scanner-stage error tagged with coordinates and a cause.
pub fn scanner_error_with_cause(
    code: ParserErrorCode,
    message: &'static str,
    coords: ParserCoords,
    cause: ParserError,
) -> (r: ParserError)
    ensures
        r == (ParserError {
            stage: ParserStage::Scanner,
            code,
            message,
            coords: Some(coords),
            inner: Some(Box::new(cause)),
        }),
{
    ParserError {
        stage: ParserStage::Scanner,
        code,
        message,
        coords: Some(coords),
        inner: Some(Box::new(cause)),
    }
}

/// Produce a lexer-stage error tagged with coordinates.
pub fn lexer_error(code: ParserErrorCode, message: &'static str, coords: ParserCoords) -> (r:
    ParserError)
    ensures
        r == (ParserError {
            stage: ParserStage::Lexer,
            code,
            message,
            coords: Some(coords),
            inner: None,
        }),
{
    ParserError { stage: ParserStage::Lexer, code, message, coords: Some(coords), inner: None }
}

/// Produce a lexer-stage error tagged with coordinates and a cause.
pub fn lexer_error_with_cause(
    code: ParserErrorCode,
    message: &'static str,
    coords: ParserCoords,
    cause: ParserError,
) -> (r: ParserError)
    ensures
        r == (ParserError {
            stage: ParserStage::Lexer,
            code,
            message,
            coords: Some(coords),
            inner: Some(Box::new(cause)),
        }),
{
    ParserError {
        stage: ParserStage::Lexer,
        code,
        message,
        coords: Some(coords),
        inner: Some(Box::new(cause)),
    }
}

} // verus!
