//! The types of the language's values.
use vstd::prelude::*;
use crate::diagnostics::Span;
use crate::errors::CompileError;
use crate::text::{push_str, str_equal, string_of};

verus! {

/// A type of the language. A list type whose item type is not known yet
/// (the type of the empty list literal) has `item_type: None`.
#[derive(Debug)]
pub enum DataType {
    Void,
    Int,
    Float,
    Bool,
    String,
    List { item_type: Option<Box<DataType>> },
}

/// Whether a value of type `found` may stand where `expected` is wanted:
/// a list of unknown item type matches any list, lists match when their item
/// types match, and other types match only themselves.
pub open spec fn spec_matches_type(expected: DataType, found: DataType) -> bool
    decreases expected,
{
    match (expected, found) {
        (DataType::List { item_type: None }, DataType::List { .. }) => true,
        (DataType::List { item_type: Some(t1) }, DataType::List { item_type: Some(t2) }) =>
            spec_matches_type(*t1, *t2),
        _ => expected == found,
    }
}

/// Every type matches itself.
pub proof fn lemma_matches_type_reflexive(t: DataType)
    ensures
        spec_matches_type(t, t),
    decreases t,
{
    if let DataType::List { item_type: Some(inner) } = t {
        lemma_matches_type_reflexive(*inner);
    }
}

/// How a type is written in messages: `void`, `int`, `float`, `bool`, `string`,
/// `list<T>` or `list<unknown>`.
pub open spec fn spec_type_name(t: DataType) -> Seq<char>
    decreases t,
{
    match t {
        DataType::Void => "void"@,
        DataType::Int => "int"@,
        DataType::Float => "float"@,
        DataType::Bool => "bool"@,
        DataType::String => "string"@,
        DataType::List { item_type: None } => "list<unknown>"@,
        DataType::List { item_type: Some(t) } => "list<"@ + spec_type_name(*t) + ">"@,
    }
}

/// How a type is written by its derived `Debug`: the variant's name, and for
/// a list its item type in the struct form (`List { item_type: Some(Int) }`).
pub open spec fn spec_type_debug(t: DataType) -> Seq<char>
    decreases t,
{
    match t {
        DataType::Void => "Void"@,
        DataType::Int => "Int"@,
        DataType::Float => "Float"@,
        DataType::Bool => "Bool"@,
        DataType::String => "String"@,
        DataType::List { item_type: None } => "List { item_type: None }"@,
        DataType::List { item_type: Some(t) } => "List { item_type: Some("@ + spec_type_debug(*t) + ") }"@,
    }
}

impl View for DataType {
    type V = DataType;

    open spec fn view(&self) -> DataType {
        *self
    }
}

impl Clone for DataType {
    fn clone(&self) -> (t: Self)
        ensures
            t == *self,
    {
        self.duplicate()
    }
}

impl DataType {
    pub fn unknow_list() -> (t: Self)
        ensures
            t == (DataType::List { item_type: None }),
    {
        Self::List { item_type: None }
    }

    pub fn list_of(item_type: DataType) -> (t: Self)
        ensures
            t == (DataType::List { item_type: Some(Box::new(item_type)) }),
    {
        Self::List { item_type: Some(Box::new(item_type)) }
    }

    /// A copy of this type.
    pub fn duplicate(&self) -> (t: Self)
        ensures
            t == *self,
        decreases self,
    {
        match self {
            DataType::Void => DataType::Void,
            DataType::Int => DataType::Int,
            DataType::Float => DataType::Float,
            DataType::Bool => DataType::Bool,
            DataType::String => DataType::String,
            DataType::List { item_type: None } => DataType::List { item_type: None },
            DataType::List { item_type: Some(t) } => DataType::List {
                item_type: Some(Box::new((&**t).duplicate())),
            },
        }
    }

    pub fn is_bool(&self) -> (b: bool)
        ensures
            b == (*self == DataType::Bool),
    {
        matches!(self, Self::Bool)
    }

    /// Structural equality of two types.
    pub fn equals(&self, other: &DataType) -> (b: bool)
        ensures
            b == (*self == *other),
        decreases self,
    {
        match (self, other) {
            (DataType::Void, DataType::Void) => true,
            (DataType::Int, DataType::Int) => true,
            (DataType::Float, DataType::Float) => true,
            (DataType::Bool, DataType::Bool) => true,
            (DataType::String, DataType::String) => true,
            (DataType::List { item_type: None }, DataType::List { item_type: None }) => true,
            (DataType::List { item_type: Some(a) }, DataType::List { item_type: Some(b) }) => {
                let r = (&**a).equals(&**b);
                proof {
                    if r {
                        assert(*self == *other);
                    }
                }
                r
            },
            _ => false,
        }
    }

    pub fn matches_type(&self, other: &DataType) -> (b: bool)
        ensures
            b == spec_matches_type(*self, *other),
        decreases self,
    {
        match (self, other) {
            (DataType::List { item_type: None }, DataType::List { .. }) => true,
            (DataType::List { item_type: Some(t1) }, DataType::List { item_type: Some(t2) }) => {
                (&**t1).matches_type(&**t2)
            },
            _ => self.equals(other),
        }
    }

    /// Appends how this type is written in messages to `s`.
    pub fn push_name(&self, s: &mut String)
        ensures
            final(s)@ == old(s)@ + spec_type_name(*self),
        decreases self,
    {
        proof {
            reveal_strlit("void");
            reveal_strlit("int");
            reveal_strlit("float");
            reveal_strlit("bool");
            reveal_strlit("string");
            reveal_strlit("list<unknown>");
            reveal_strlit("list<");
            reveal_strlit(">");
        }
        match self {
            DataType::Void => push_str(s, "void"),
            DataType::Int => push_str(s, "int"),
            DataType::Float => push_str(s, "float"),
            DataType::Bool => push_str(s, "bool"),
            DataType::String => push_str(s, "string"),
            DataType::List { item_type: None } => push_str(s, "list<unknown>"),
            DataType::List { item_type: Some(t) } => {
                push_str(s, "list<");
                (&**t).push_name(s);
                push_str(s, ">");
                assert(final(s)@ =~= old(s)@ + spec_type_name(*self));
            },
        }
    }

    /// Appends how this type's derived `Debug` writes it to `s`.
    pub fn push_debug(&self, s: &mut String)
        ensures
            final(s)@ == old(s)@ + spec_type_debug(*self),
        decreases self,
    {
        proof {
            reveal_strlit("Void");
            reveal_strlit("Int");
            reveal_strlit("Float");
            reveal_strlit("Bool");
            reveal_strlit("String");
            reveal_strlit("List { item_type: None }");
            reveal_strlit("List { item_type: Some(");
            reveal_strlit(") }");
        }
        match self {
            DataType::Void => push_str(s, "Void"),
            DataType::Int => push_str(s, "Int"),
            DataType::Float => push_str(s, "Float"),
            DataType::Bool => push_str(s, "Bool"),
            DataType::String => push_str(s, "String"),
            DataType::List { item_type: None } => push_str(s, "List { item_type: None }"),
            DataType::List { item_type: Some(t) } => {
                push_str(s, "List { item_type: Some(");
                (&**t).push_debug(s);
                push_str(s, ") }");
                assert(final(s)@ =~= old(s)@ + spec_type_debug(*self));
            },
        }
    }

    /// How this type is written in messages (what `Display` prints for it).
    pub fn to_display_string(&self) -> (s: String)
        ensures
            s@ == spec_type_name(*self),
    {
        let mut s = string_of("");
        proof {
            reveal_strlit("");
        }
        self.push_name(&mut s);
        assert(s@ =~= spec_type_name(*self));
        s
    }

    /// The type of calling method `method_name` with arguments of types `args`
    /// on a value of this type. The only method is `length` on strings, which
    /// takes no argument and gives an `int`.
    pub fn check_method_call(&self, method_name: &str, span: Span, args: &[DataType]) -> (r:
        Result<DataType, CompileError>)
        ensures
            crate::errors::view_result(r) == spec_check_method_call(*self, method_name@, span, args@),
    {
        proof {
            reveal_strlit("length");
        }
        match self {
            DataType::String => {
                if str_equal(method_name, "length") {
                    if args.len() != 0 {
                        return Err(CompileError::wrong_number_of_arguments_at(0, args.len(), span));
                    }
                    Ok(DataType::Int)
                } else {
                    Err(CompileError::method_not_found_at(self.duplicate(), method_name, span))
                }
            },
            _ => Err(CompileError::method_not_found_at(self.duplicate(), method_name, span)),
        }
    }
}

pub open spec fn spec_check_method_call(
    t: DataType,
    method_name: Seq<char>,
    span: Span,
    args: Seq<DataType>,
) -> Result<DataType, crate::errors::CompileErrorView> {
    if t == DataType::String && method_name == "length"@ {
        if args.len() != 0 {
            Err(crate::errors::spec_wrong_number_of_arguments_at(0, args.len() as int, span))
        } else {
            Ok(DataType::Int)
        }
    } else {
        Err(crate::errors::spec_method_not_found_at(t, method_name, span))
    }
}

} // verus!
