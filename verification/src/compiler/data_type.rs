//! The value types of the language's first form, which had no lists.
use vstd::prelude::*;
use crate::text::string_of;

verus! {

#[derive(Debug, Clone, Copy, PartialEq, Eq, Structural)]
pub enum DataType {
    Void,
    Int,
    Float,
    Bool,
    String,
}

/// How a type is written in messages.
pub open spec fn spec_simple_type_name(t: DataType) -> Seq<char> {
    match t {
        DataType::Void => "void"@,
        DataType::Int => "int"@,
        DataType::Float => "float"@,
        DataType::Bool => "bool"@,
        DataType::String => "string"@,
    }
}

impl DataType {
    pub fn is_bool(&self) -> (b: bool)
        ensures
            b == (*self == DataType::Bool),
    {
        matches!(self, Self::Bool)
    }

    /// How the type is written in messages.
    pub fn to_display_string(&self) -> (s: String)
        ensures
            s@ == spec_simple_type_name(*self),
    {
        proof {
            reveal_strlit("void");
            reveal_strlit("int");
            reveal_strlit("float");
            reveal_strlit("bool");
            reveal_strlit("string");
        }
        match self {
            DataType::Void => string_of("void"),
            DataType::Int => string_of("int"),
            DataType::Float => string_of("float"),
            DataType::Bool => string_of("bool"),
            DataType::String => string_of("string"),
        }
    }
}

} // verus!
