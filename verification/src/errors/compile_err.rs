use vstd::prelude::*;
use crate::compiler::token::{TokenKind, spec_token_description};
use crate::data_type::{DataType, spec_type_name};
use crate::diagnostics::{FileId, Span};
use crate::text::{decimal, push_char, push_decimal, push_str, string_of};

verus! {

/// An error found while compiling a module, with the source span it points at
/// and notes for the reader. A command-line runner renders it.
#[derive(Debug, Clone)]
pub struct CompileError {
    pub kind: CompileErrorKind,
    pub message: String,
    pub span: Option<Span>,
    pub notes: Vec<String>,
}

#[derive(Debug, Clone)]
pub enum CompileErrorKind {
    UnexpectedChar(char),
    UnexpectedToken(TokenKind),
    UnterminatedString,
    InvalidNumber,
    UnexpectedEndOfFile,
    WrongType { expected: DataType, found: DataType },
    WrongNumberOfArguments { expected: usize, found: usize },
    VariableNotFound(String),
    FunctionNotFound(String),
    FunctionAlreadyDefined(String),
    VarRedeclaration(String),
    ModuleNotFound(String),
    UnknownForeignFunction { module: String, name: String },
    ReservedFunctionName(String),
    Other,
}

/// A compile error seen as plain values: the message and the notes as text.
pub struct CompileErrorView {
    pub kind: CompileErrorKind,
    pub message: Seq<char>,
    pub span: Option<Span>,
    pub notes: Seq<Seq<char>>,
}

impl View for CompileError {
    type V = CompileErrorView;

    open spec fn view(&self) -> CompileErrorView {
        CompileErrorView {
            kind: self.kind,
            message: self.message@,
            span: self.span,
            notes: self.notes@.map_values(|n: String| n@),
        }
    }
}

/// A result whose error is a compile error, seen with the error's view.
pub open spec fn view_result<T>(r: Result<T, CompileError>) -> Result<T, CompileErrorView> {
    match r {
        Ok(v) => Ok(v),
        Err(e) => Err(e@),
    }
}

/// An error of the given kind and message, without span and notes.
pub open spec fn spec_error(kind: CompileErrorKind, message: Seq<char>) -> CompileErrorView {
    CompileErrorView { kind, message, span: None, notes: Seq::empty() }
}

pub open spec fn spec_wrong_type(expected: DataType, found: DataType) -> CompileErrorView {
    CompileErrorView { span: None, ..spec_wrong_type_at(expected, found, Span { file: 0, lo: 0, hi: 0 }) }
}

pub open spec fn spec_wrong_number_of_arguments(expected: int, found: int) -> CompileErrorView {
    CompileErrorView {
        span: None,
        ..spec_wrong_number_of_arguments_at(expected, found, Span { file: 0, lo: 0, hi: 0 })
    }
}

/// An error of the given kind, message and span, without notes.
pub open spec fn spec_error_at(kind: CompileErrorKind, message: Seq<char>, span: Span) -> CompileErrorView {
    CompileErrorView { kind, message, span: Some(span), notes: Seq::empty() }
}

pub open spec fn spec_unexpected_char_at(ch: char, span: Span) -> CompileErrorView {
    spec_error_at(CompileErrorKind::UnexpectedChar(ch), "unexpected character '"@ + seq![ch] + "'"@, span)
}

pub open spec fn spec_unterminated_string_at(span: Span) -> CompileErrorView {
    spec_error_at(CompileErrorKind::UnterminatedString, "unterminated string literal"@, span)
}

pub open spec fn spec_unexpected_end_of_file_at(span: Span) -> CompileErrorView {
    spec_error_at(CompileErrorKind::UnexpectedEndOfFile, "unexpected end of file"@, span)
}

pub open spec fn spec_reserved_function_name_at(name: String, span: Span) -> CompileErrorView {
    spec_error_at(
        CompileErrorKind::ReservedFunctionName(name),
        "use of reserved function name "@ + name@,
        span,
    )
}

pub open spec fn spec_unexpected_token_at(kind: TokenKind, span: Span) -> CompileErrorView {
    spec_error_at(
        CompileErrorKind::UnexpectedToken(kind),
        "unexpected token: "@ + spec_token_description(kind),
        span,
    )
}

pub open spec fn spec_wrong_type_at(expected: DataType, found: DataType, span: Span) -> CompileErrorView {
    spec_error_at(
        CompileErrorKind::WrongType { expected, found },
        "expected type "@ + spec_type_name(expected) + ", found "@ + spec_type_name(found),
        span,
    )
}

pub open spec fn spec_wrong_number_of_arguments_at(expected: int, found: int, span: Span) -> CompileErrorView {
    spec_error_at(
        CompileErrorKind::WrongNumberOfArguments { expected: expected as usize, found: found as usize },
        "expected "@ + decimal(expected as nat) + " arguments, found "@ + decimal(found as nat),
        span,
    )
}

pub open spec fn spec_method_not_found_at(t: DataType, method: Seq<char>, span: Span) -> CompileErrorView {
    spec_error_at(
        CompileErrorKind::Other,
        "no method "@ + method + " on type "@ + spec_type_name(t),
        span,
    )
}

pub open spec fn spec_cannot_infer_type_at(variable: String, span: Span) -> CompileErrorView {
    spec_error_at(
        CompileErrorKind::Other,
        "cannot infer the type of variable "@ + variable@,
        span,
    )
}

pub open spec fn spec_variable_not_found_at(name: String, span: Span) -> CompileErrorView {
    spec_error_at(CompileErrorKind::VariableNotFound(name), "variable "@ + name@ + " not found"@, span)
}

pub open spec fn spec_function_not_found_at(name: String, span: Span) -> CompileErrorView {
    spec_error_at(CompileErrorKind::FunctionNotFound(name), "function "@ + name@ + " not found"@, span)
}

pub open spec fn spec_module_not_found_at(name: String, span: Span) -> CompileErrorView {
    spec_error_at(CompileErrorKind::ModuleNotFound(name), "module "@ + name@ + " not found"@, span)
}

pub open spec fn spec_unknown_foreign_function_at(module: String, name: String, span: Span) -> CompileErrorView {
    spec_error_at(
        CompileErrorKind::UnknownForeignFunction { module, name },
        "unknown function "@ + name@ + " in module "@ + module@,
        span,
    )
}

pub open spec fn spec_var_redeclaration_at(name: String, span: Span) -> CompileErrorView {
    spec_error_at(
        CompileErrorKind::VarRedeclaration(name),
        "variable "@ + name@ + " is already declared"@,
        span,
    )
}

impl CompileError {
    pub fn new(kind: CompileErrorKind, message: String) -> (e: Self)
        ensures
            e.kind == kind,
            e.message == message,
            e.span is None,
            e.notes@.len() == 0,
    {
        CompileError { kind, message, span: None, notes: Vec::new() }
    }

    pub fn with_span(self, span: Span) -> (e: Self)
        ensures
            e == (CompileError { span: Some(span), ..self }),
    {
        let mut s = self;
        s.span = Some(span);
        s
    }

    pub fn add_note(self, note: String) -> (e: Self)
        ensures
            e.kind == self.kind,
            e.message == self.message,
            e.span == self.span,
            e.notes@ == self.notes@.push(note),
    {
        let mut s = self;
        s.notes.push(note);
        s
    }

    fn at(kind: CompileErrorKind, message: String, span: Span) -> (e: Self)
        ensures
            e@ == spec_error_at(kind, message@, span),
    {
        let e = CompileError { kind, message, span: Some(span), notes: Vec::new() };
        assert(e@.notes =~= Seq::<Seq<char>>::empty());
        e
    }

    /// A wrong-type error that does not point at a span.
    pub fn wrong_type(expected: DataType, found: DataType) -> (e: Self)
        ensures
            e@ == spec_wrong_type(expected, found),
    {
        let mut e = Self::wrong_type_at(expected, found, Span::new(0, 0, 0));
        e.span = None;
        e
    }

    /// A wrong-argument-count error that does not point at a span.
    pub fn wrong_number_of_arguments(expected: usize, found: usize) -> (e: Self)
        ensures
            e@ == spec_wrong_number_of_arguments(expected as int, found as int),
    {
        let mut e = Self::wrong_number_of_arguments_at(expected, found, Span::new(0, 0, 0));
        e.span = None;
        e
    }

    pub fn unexpected_char_at(ch: char, span: Span) -> (e: Self)
        ensures
            e@ == spec_unexpected_char_at(ch, span),
    {
        proof {
            reveal_strlit("unexpected character '");
            reveal_strlit("'");
        }
        let mut m = string_of("unexpected character '");
        push_char(&mut m, ch);
        push_str(&mut m, "'");
        assert(m@ =~= "unexpected character '"@ + seq![ch] + "'"@);
        Self::at(CompileErrorKind::UnexpectedChar(ch), m, span)
    }

    pub fn unterminated_string_at(span: Span) -> (e: Self)
        ensures
            e@ == spec_unterminated_string_at(span),
    {
        Self::at(CompileErrorKind::UnterminatedString, string_of("unterminated string literal"), span)
    }

    pub fn unexpected_end_of_file_at(span: Span) -> (e: Self)
        ensures
            e@ == spec_unexpected_end_of_file_at(span),
    {
        Self::at(CompileErrorKind::UnexpectedEndOfFile, string_of("unexpected end of file"), span)
    }

    /// End of file reached where more tokens were needed, reported at the start of the file.
    pub fn unexpected_end_of_file(file: FileId) -> (e: Self)
        ensures
            e@ == spec_unexpected_end_of_file_at(Span { file, lo: 0, hi: 0 }),
    {
        Self::unexpected_end_of_file_at(Span::new(file, 0, 0))
    }

    pub fn reserved_function_name_at(name: &String, span: Span) -> (e: Self)
        ensures
            e@ == spec_reserved_function_name_at(*name, span),
    {
        proof {
            reveal_strlit("use of reserved function name ");
        }
        let mut m = string_of("use of reserved function name ");
        push_str(&mut m, name.as_str());
        Self::at(CompileErrorKind::ReservedFunctionName(name.clone()), m, span)
    }

    pub fn unexpected_token_at(token_kind: TokenKind, span: Span) -> (e: Self)
        ensures
            e@ == spec_unexpected_token_at(token_kind, span),
    {
        proof {
            reveal_strlit("unexpected token: ");
        }
        let mut m = string_of("unexpected token: ");
        token_kind.push_description(&mut m);
        Self::at(CompileErrorKind::UnexpectedToken(token_kind), m, span)
    }

    pub fn other_at(msg: String, span: Span) -> (e: Self)
        ensures
            e@ == spec_error_at(CompileErrorKind::Other, msg@, span),
    {
        Self::at(CompileErrorKind::Other, msg, span)
    }

    pub fn wrong_type_at(expected: DataType, found: DataType, span: Span) -> (e: Self)
        ensures
            e@ == spec_wrong_type_at(expected, found, span),
    {
        proof {
            reveal_strlit("expected type ");
            reveal_strlit(", found ");
        }
        let mut m = string_of("expected type ");
        expected.push_name(&mut m);
        push_str(&mut m, ", found ");
        found.push_name(&mut m);
        assert(m@ =~= "expected type "@ + spec_type_name(expected) + ", found "@ + spec_type_name(found));
        Self::at(CompileErrorKind::WrongType { expected, found }, m, span)
    }

    pub fn wrong_number_of_arguments_at(expected: usize, found: usize, span: Span) -> (e: Self)
        ensures
            e@ == spec_wrong_number_of_arguments_at(expected as int, found as int, span),
    {
        proof {
            reveal_strlit("expected ");
            reveal_strlit(" arguments, found ");
        }
        let mut m = string_of("expected ");
        push_decimal(&mut m, expected as u64);
        push_str(&mut m, " arguments, found ");
        push_decimal(&mut m, found as u64);
        assert(m@ =~= "expected "@ + decimal(expected as nat) + " arguments, found "@ + decimal(found as nat));
        Self::at(CompileErrorKind::WrongNumberOfArguments { expected, found }, m, span)
    }

    pub fn method_not_found_at(t: DataType, method: &str, span: Span) -> (e: Self)
        ensures
            e@ == spec_method_not_found_at(t, method@, span),
    {
        proof {
            reveal_strlit("no method ");
            reveal_strlit(" on type ");
        }
        let mut m = string_of("no method ");
        push_str(&mut m, method);
        push_str(&mut m, " on type ");
        t.push_name(&mut m);
        assert(m@ =~= "no method "@ + method@ + " on type "@ + spec_type_name(t));
        Self::at(CompileErrorKind::Other, m, span)
    }

    pub fn cannot_infer_type_at(variable: &String, span: Span) -> (e: Self)
        ensures
            e@ == spec_cannot_infer_type_at(*variable, span),
    {
        proof {
            reveal_strlit("cannot infer the type of variable ");
        }
        let mut m = string_of("cannot infer the type of variable ");
        push_str(&mut m, variable.as_str());
        Self::at(CompileErrorKind::Other, m, span)
    }

    pub fn variable_not_found_at(name: &String, span: Span) -> (e: Self)
        ensures
            e@ == spec_variable_not_found_at(*name, span),
    {
        proof {
            reveal_strlit("variable ");
            reveal_strlit(" not found");
        }
        let mut m = string_of("variable ");
        push_str(&mut m, name.as_str());
        push_str(&mut m, " not found");
        assert(m@ =~= "variable "@ + name@ + " not found"@);
        Self::at(CompileErrorKind::VariableNotFound(name.clone()), m, span)
    }

    pub fn function_not_found_at(name: &String, span: Span) -> (e: Self)
        ensures
            e@ == spec_function_not_found_at(*name, span),
    {
        proof {
            reveal_strlit("function ");
            reveal_strlit(" not found");
        }
        let mut m = string_of("function ");
        push_str(&mut m, name.as_str());
        push_str(&mut m, " not found");
        assert(m@ =~= "function "@ + name@ + " not found"@);
        Self::at(CompileErrorKind::FunctionNotFound(name.clone()), m, span)
    }

    pub fn module_not_found_at(name: &String, span: Span) -> (e: Self)
        ensures
            e@ == spec_module_not_found_at(*name, span),
    {
        proof {
            reveal_strlit("module ");
            reveal_strlit(" not found");
        }
        let mut m = string_of("module ");
        push_str(&mut m, name.as_str());
        push_str(&mut m, " not found");
        assert(m@ =~= "module "@ + name@ + " not found"@);
        Self::at(CompileErrorKind::ModuleNotFound(name.clone()), m, span)
    }

    pub fn unknown_foreign_function_at(module: &String, name: &String, span: Span) -> (e: Self)
        ensures
            e@ == spec_unknown_foreign_function_at(*module, *name, span),
    {
        proof {
            reveal_strlit("unknown function ");
            reveal_strlit(" in module ");
        }
        let mut m = string_of("unknown function ");
        push_str(&mut m, name.as_str());
        push_str(&mut m, " in module ");
        push_str(&mut m, module.as_str());
        assert(m@ =~= "unknown function "@ + name@ + " in module "@ + module@);
        Self::at(
            CompileErrorKind::UnknownForeignFunction { module: module.clone(), name: name.clone() },
            m,
            span,
        )
    }

    pub fn var_redeclaration_at(name: &String, span: Span) -> (e: Self)
        ensures
            e@ == spec_var_redeclaration_at(*name, span),
    {
        proof {
            reveal_strlit("variable ");
            reveal_strlit(" is already declared");
        }
        let mut m = string_of("variable ");
        push_str(&mut m, name.as_str());
        push_str(&mut m, " is already declared");
        assert(m@ =~= "variable "@ + name@ + " is already declared"@);
        Self::at(CompileErrorKind::VarRedeclaration(name.clone()), m, span)
    }
}

} // verus!
