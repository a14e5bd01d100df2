//! Rendering is carried out through a pipeline and display list
//! abstraction, so that sequences of drawing commands can be grouped into
//! batches and handed to a specific renderer.

use vstd::prelude::*;

verus! {

/// Font styles a renderer may be asked to apply.
#[derive(Debug, Clone, Copy, PartialEq, Eq, Structural)]
pub enum FontStyle {
    /// Normal font
    Normal,
    /// Bold font
    Bold,
    /// Italic font
    Italic,
}

/// Allowable alignment values.
#[derive(Debug, Clone, Copy, PartialEq, Eq, Structural)]
pub enum Alignment {
    Left,
    Right,
    Center,
}

/// Primitive drawing commands.
#[derive(Debug, Clone, PartialEq)]
pub enum Draw {
    /// Output a newline
    NewLine,
    /// Indent by a positive number of chars
    Indent(u16),
    /// Output a single character
    Char(char),
    /// Output a repeated character count times
    Repeat(char, u16),
    /// Output fixed width text
    FixedWidthText(String, u16),
    /// Output text
    Text(String),
    /// Output a static slice
    Slice(&'static str),
}

/// Draw state mutation commands.
#[derive(Debug, Clone, PartialEq)]
pub enum ChangeState {
    /// Clear the current buffer
    Clear,
    /// Set the render cursor position
    SetCursor(u16, u16),
    /// Push a foreground colour
    PushForegroundColour(u8, u8, u8),
    /// Pop a foreground colour
    PopForegroundColour,
    /// Push a background colour
    PushBackgroundColour(u8, u8, u8),
    /// Pop a background colour
    PopBackgroundColour,
    /// Push a font style
    PushFontStyle(FontStyle),
    /// Pop the current font style
    PopFontStyle,
    /// Pop an alignment
    PopAlignment,
    /// Push an alignment
    PushAlignment(Alignment),
    /// Terminate the rendering loop
    Terminate,
}

/// A pipeline command: either a state related command or a drawing command.
#[derive(Debug, Clone, PartialEq)]
pub enum DisplayListCommand {
    /// A command to mutate render state
    ChangeState(ChangeState),
    /// Draw, using a specific op code
    Draw(Draw),
}

/// A display list can either be immediate (meaning render immediately) or
/// deferred (meaning that the renderer may decide to not render
/// immediately).
#[derive(Debug, Clone, PartialEq, Eq, Structural)]
pub enum DisplayListMode {
    /// The display list should be rendered immediately
    Immediate,
    /// The display list may be deferred and rendered later
    Deferred,
}

/// A display list: a batch of commands with a rendering mode.
#[derive(Debug, Clone, PartialEq)]
pub struct DisplayList {
    /// The mode for the display list
    pub mode: DisplayListMode,
    /// The operations associated with the display list
    pub cmds: Vec<DisplayListCommand>,
}

} // verus!
