//! A streaming JSON tokenizer: bytes are decoded into Unicode scalar values,
//! classified into lexemes with bounded lookahead, and assembled into JSON
//! tokens, with precise source coordinates carried through every stage.

pub mod parser_coords;
pub mod parser_errors;
pub mod char_stream;
pub mod scanner;
pub mod lexer;
pub mod json_numbers;
pub mod string_table;
pub mod errors;
pub mod sax;
pub mod display_lists;
pub mod options;
pub mod pretty_printer;
pub mod cli;
