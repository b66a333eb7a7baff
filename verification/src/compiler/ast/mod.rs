//! The syntax tree of the language's first form.
mod item;
mod statement;

pub use item::{FunctionDef, Item};
pub use statement::Stmt;
