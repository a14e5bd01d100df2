//! Utility functions relating to SAX-based traversal of JSON: each event
//! kind maps to a bit for filtering and to a type code character for
//! display.

use vstd::prelude::*;

verus! {

/// A pointer to an object
pub const OBJECT: u8 = 0b0000_0001;

/// A pointer to an array
pub const ARRAY: u8 = 0b0000_0010;

/// A pointer to a key
pub const KEY: u8 = 0b0000_0100;

/// A pointer to a string value
pub const STRING: u8 = 0b0000_1000;

/// A pointer to a float value
pub const FLOAT: u8 = 0b0001_0000;

/// A pointer to an integer value
pub const INTEGER: u8 = 0b0010_0000;

/// A pointer to a boolean value
pub const BOOLEAN: u8 = 0b0100_0000;

/// A pointer to a null value
pub const NULL: u8 = 0b1000_0000;

/// A pointer to anything
pub const ALL: u8 = 0b1111_1111;

/// The kind of JSON element a SAX traversal event reports.
#[derive(Debug, Copy, Clone, PartialEq, Eq, PartialOrd, Ord, Structural)]
pub enum MatchKind {
    StartOfDocument,
    EndOfDocument,
    StartObject,
    EndObject,
    StartArray,
    EndArray,
    ObjectKey,
    Float,
    Integer,
    Null,
    Boolean,
    String,
}

/// An internal enumeration designating the specific *type* of a JSON
/// pointer: what kind of JSON element it points to.
#[derive(Debug, Copy, Clone, PartialEq, Eq, PartialOrd, Ord, Structural)]
pub enum PointerType {
    /// object elements
    Objects,
    /// array elements
    Arrays,
    /// object member key elements
    Keys,
    /// string value elements
    Strings,
    /// float value elements
    Floats,
    /// integer value elements
    Integers,
    /// boolean value elements
    Booleans,
    /// null value elements
    Nulls,
}

/// The filter bit of one event kind.
pub open spec fn bit_of_match(m: MatchKind) -> u8 {
    match m {
        MatchKind::StartObject => OBJECT,
        MatchKind::StartArray => ARRAY,
        MatchKind::ObjectKey => KEY,
        MatchKind::Float => FLOAT,
        MatchKind::Integer => INTEGER,
        MatchKind::Null => NULL,
        MatchKind::Boolean => BOOLEAN,
        MatchKind::String => STRING,
        _ => 0,
    }
}

/// Convert an event kind into a bit suitable for use in filtering.
pub fn matched_to_bit(m: &MatchKind) -> (r: u8)
    ensures
        r == bit_of_match(*m),
{
    match m {
        MatchKind::StartObject => OBJECT,
        MatchKind::StartArray => ARRAY,
        MatchKind::ObjectKey => KEY,
        MatchKind::Float => FLOAT,
        MatchKind::Integer => INTEGER,
        MatchKind::Null => NULL,
        MatchKind::Boolean => BOOLEAN,
        MatchKind::String => STRING,
        _ => 0,
    }
}

/// The type code character of one event kind.
pub open spec fn char_of_match(m: MatchKind) -> char {
    match m {
        MatchKind::StartObject => 'o',
        MatchKind::EndObject => 'O',
        MatchKind::StartArray => 'a',
        MatchKind::EndArray => 'A',
        MatchKind::ObjectKey => 'k',
        MatchKind::Float => 'f',
        MatchKind::Integer => 'i',
        MatchKind::Null => 'n',
        MatchKind::Boolean => 'b',
        MatchKind::String => 's',
        _ => '?',
    }
}

/// Convert an event kind into a single character for output as part of a
/// command execution.
pub fn matched_to_char(m: &MatchKind) -> (r: char)
    ensures
        r == char_of_match(*m),
{
    match m {
        MatchKind::StartObject => 'o',
        MatchKind::EndObject => 'O',
        MatchKind::StartArray => 'a',
        MatchKind::EndArray => 'A',
        MatchKind::ObjectKey => 'k',
        MatchKind::Float => 'f',
        MatchKind::Integer => 'i',
        MatchKind::Null => 'n',
        MatchKind::Boolean => 'b',
        MatchKind::String => 's',
        _ => '?',
    }
}

/// The filter bit of one pointer type.
pub open spec fn bit_of_pointer_type(t: PointerType) -> u8 {
    match t {
        PointerType::Objects => OBJECT,
        PointerType::Arrays => ARRAY,
        PointerType::Keys => KEY,
        PointerType::Strings => STRING,
        PointerType::Floats => FLOAT,
        PointerType::Integers => INTEGER,
        PointerType::Booleans => BOOLEAN,
        PointerType::Nulls => NULL,
    }
}

/// The bits of all the pointer types in the sequence, combined.
pub open spec fn bits_of_pointer_types(s: Seq<PointerType>) -> u8
    decreases s.len(),
{
    if s.len() == 0 {
        0
    } else {
        bits_of_pointer_types(s.drop_last()) | bit_of_pointer_type(s.last())
    }
}

/// Given a list of [PointerType]s, create a bit filter: the bits of every
/// listed type, or every bit when the list is empty.
pub fn bit_filter(types: &Vec<PointerType>) -> (r: u8)
    ensures
        types@.len() == 0 ==> r == ALL,
        types@.len() > 0 ==> r == bits_of_pointer_types(types@),
{
    let mut filter: u8 = 0b0000_0000;
    if types.len() == 0 {
        return ALL;
    }
    let mut i: usize = 0;
    while i < types.len()
        invariant
            i <= types@.len(),
            filter == bits_of_pointer_types(types@.take(i as int)),
        decreases types@.len() - i,
    {
        let ghost prefix = types@.take(i as int);
        let bit = match types[i] {
            PointerType::Objects => OBJECT,
            PointerType::Arrays => ARRAY,
            PointerType::Keys => KEY,
            PointerType::Strings => STRING,
            PointerType::Floats => FLOAT,
            PointerType::Integers => INTEGER,
            PointerType::Booleans => BOOLEAN,
            PointerType::Nulls => NULL,
        };
        filter = filter | bit;
        i = i + 1;
        proof {
            let ext = types@.take(i as int);
            assert(ext.drop_last() =~= prefix);
            assert(ext.last() == types@[i - 1]);
        }
    }
    proof {
        assert(types@.take(types@.len() as int) =~= types@);
    }
    filter
}

} // verus!
