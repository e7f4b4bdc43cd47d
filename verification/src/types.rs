//! The types of field values.
use vstd::prelude::*;

verus! {

/// An exhaustive enumeration of all the data types of a field of a tuple.
#[derive(Eq, PartialEq, Debug, Clone, Copy, Structural)]
pub enum Type {
    Null,
    Boolean,
    Integer,
    Float,
    Varchar,
}

impl Type {
    /// The byte size of a value of this type in the fixed-size part of a
    /// tuple: the size of the value itself if that is fixed, and the size of
    /// an offset into the tuple's payload for a variable-length type.
    pub open spec fn spec_size(self) -> nat {
        match self {
            Type::Null => 0,
            Type::Boolean => 1,
            Type::Integer => 4,
            Type::Float => 8,
            Type::Varchar => vstd::layout::size_of::<usize>(),
        }
    }

    /// Returns the byte size of this type if it's fixed size; otherwise, for variable-length types
    /// returns the byte size of its offset into the tuple data payload.
    pub fn size(&self) -> (size: usize)
        ensures
            size == self.spec_size(),
    {
        match self {
            Type::Null => 0,
            Type::Boolean => 1,
            // We work with 32-bit integers, which are 4 bytes.
            Type::Integer => 4,
            // We work with 64-bit floating-point numbers, which are 8 bytes.
            Type::Float => 8,
            // Strings are variable-length, so inferring the size from this enum is impossible.
            Type::Varchar => core::mem::size_of::<usize>(),
        }
    }

    /// The name of the type.
    pub fn to_string(&self) -> (name: String)
        ensures
            name@ == self.spec_name(),
    {
        match self {
            Type::Null => "Null".to_string(),
            Type::Boolean => "Boolean".to_string(),
            Type::Integer => "Integer".to_string(),
            Type::Float => "Float".to_string(),
            Type::Varchar => "Varchar".to_string(),
        }
    }

    /// The name of the type.
    pub open spec fn spec_name(self) -> Seq<char> {
        match self {
            Type::Null => "Null"@,
            Type::Boolean => "Boolean"@,
            Type::Integer => "Integer"@,
            Type::Float => "Float"@,
            Type::Varchar => "Varchar"@,
        }
    }
}

} // verus!
