mod compile_err;
mod interpreter_error;
mod runtime_error;
mod diagnostic;

pub use compile_err::{
    CompileError, CompileErrorKind, CompileErrorView, view_result, spec_error_at, spec_error, spec_wrong_type,
    spec_wrong_number_of_arguments,
    spec_unexpected_char_at, spec_unterminated_string_at, spec_unexpected_end_of_file_at,
    spec_reserved_function_name_at, spec_unexpected_token_at, spec_wrong_type_at,
    spec_wrong_number_of_arguments_at, spec_method_not_found_at, spec_cannot_infer_type_at,
    spec_variable_not_found_at, spec_function_not_found_at, spec_module_not_found_at,
    spec_unknown_foreign_function_at, spec_var_redeclaration_at,
};
pub use interpreter_error::InterpreterError;
pub use runtime_error::{RuntimeError, spec_runtime_error_message};
pub use diagnostic::spec_error_text;
