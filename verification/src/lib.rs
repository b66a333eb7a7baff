//! A small statically typed scripting language: lexer, parser, type checker,
//! compiler to a stack bytecode, a bytecode file format and an interpreter.

pub mod diagnostics;
pub mod text;
pub mod data_type;
pub mod errors;
pub mod compiler;
pub mod ast;
pub mod value;
pub mod name_map;
pub mod function;
pub mod instruction;
pub mod bytecode;
pub mod module;
pub mod interpreter;
pub mod function_source;
pub mod executable_module;
pub mod interpreter_source;
pub mod module_cluster;
