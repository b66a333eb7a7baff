//! From source text to a module: lexer, parser, type checker and compiler.
pub mod ast;
pub mod chars;
pub mod compiler;
pub mod data_type;
pub mod data_type_scope;
pub mod lexer;
pub mod parser;
pub mod token;
pub mod type_checker;

pub use compiler::Compiler;
pub use lexer::tokenize;
pub use parser::Parser;
pub use type_checker::TypeChecker;
