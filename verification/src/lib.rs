//! A small Lox-style scripting language (scanner, parser and AST) together with
//! the shape types that scripts describe.

pub mod script;
pub mod shapes;
pub mod shape_tree;
