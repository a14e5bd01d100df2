//! The command line surface of the tool: the available commands and their
//! settings, as plain data. The argument-parsing wrapper around these types
//! lives with the binary.

use vstd::prelude::*;

use crate::sax::PointerType;

verus! {

/// Settings of the print command: pretty printing JSON DOM structures.
#[derive(Debug, Clone, PartialEq)]
pub struct PrintCommand {
    /// Source JSON file. If not specified, input is assumed to come from stdin.
    pub file: Option<String>,
    /// Indent space count: object keys and array values are indented by
    /// this amount plus the parent indentation amount.
    pub indent: u16,
    /// KV padding count: the number of spaces added to each side of the
    /// `:` character in a key/value pair.
    pub kvpadding: u16,
}

/// Settings of the filter command: filtering JSON DOM structures.
#[derive(Debug, Clone, PartialEq)]
pub struct FilterCommand {
    /// Source JSON file. If not specified, input is assumed to come from stdin.
    pub file: Option<String>,
}

/// Settings of the pointers command: inspecting JSON pointers.
#[derive(Debug, Clone, PartialEq)]
pub struct PointersCommand {
    /// Source JSON file. If not specified, input is assumed to come from stdin.
    pub file: Option<String>,
    /// If specified, only the JSON pointers corresponding to these specific
    /// element types will be emitted.
    pub types: Vec<PointerType>,
    /// The delimiter used to separate type codes from pointer values.
    pub delimiter: char,
    /// Show location information relating to each discovered pointer.
    pub show_locations: bool,
    /// Show type information relating to each discovered pointer.
    pub show_types: bool,
    /// The currently operating filter.
    pub filter: u8,
}

/// Enumeration of available commands and their associated arguments.
#[derive(Debug, Clone, PartialEq)]
pub enum AppCommand {
    /// Pretty printing JSON DOM structures
    Print(PrintCommand),
    /// Filtering JSON DOM structures
    Filter(FilterCommand),
    /// Inspecting JSON pointers
    Pointers(PointersCommand),
}

/// Top level command line arguments and configuration settings.
#[derive(Debug, Clone, PartialEq)]
pub struct AppArguments {
    /// The selected command
    pub command: AppCommand,
}

} // verus!
