//! Common result and error types for the application layer around the
//! tokenizer.

use vstd::prelude::*;

verus! {

/// Application result type.
pub type ChiselResult<T> = Result<T, ChiselError>;

/// Enumeration covering the common errors that might arise around the
/// tokenizer: bad sources, bad input, and a rendering pipeline that went
/// away.
#[derive(Debug, Clone, Copy, PartialEq, Eq, Structural)]
pub enum ChiselError {
    /// An invalid file has been specified
    InvalidFile,
    /// Invalid input has been specified
    InvalidInput,
    /// Expecting piped input, but stdin is actually a TTY
    NoPipedInput,
    /// Not a TTY
    NoTty,
    /// Failed to send to the rendering pipeline
    RenderPipelineSendFailed,
    /// Failed to submit a display list
    DisplayListFailed,
}

impl ChiselError {
    /// A short description of the error, for display by a consuming tool.
    pub fn message(&self) -> (r: &'static str)
        ensures
            (match self {
                ChiselError::InvalidFile => r@ == "An invalid file has been specified"@,
                ChiselError::InvalidInput => r@ == "Invalid, or junk input has been specified"@,
                ChiselError::NoPipedInput => r@
                    == "Expecting piped input, but doesn't look like there is any..."@,
                ChiselError::NoTty => r@ == "Not a tty!"@,
                ChiselError::RenderPipelineSendFailed => r@
                    == "Failed to send command list to renderer"@,
                ChiselError::DisplayListFailed => r@ == "Failed to submit a display list"@,
            }),
    {
        match self {
            ChiselError::InvalidFile => "An invalid file has been specified",
            ChiselError::InvalidInput => "Invalid, or junk input has been specified",
            ChiselError::NoPipedInput => "Expecting piped input, but doesn't look like there is any...",
            ChiselError::NoTty => "Not a tty!",
            ChiselError::RenderPipelineSendFailed => "Failed to send command list to renderer",
            ChiselError::DisplayListFailed => "Failed to submit a display list",
        }
    }
}

} // verus!
