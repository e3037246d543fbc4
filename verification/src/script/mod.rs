pub mod tokens;
pub mod text;
pub mod scanner;
pub mod spacing;
pub mod ast;
pub mod parser;
pub mod resolver;
pub mod vm;
pub mod sample;
pub mod errors;
pub mod runtime;
pub mod runner;
pub mod interpreter;

pub use errors::RunError;
