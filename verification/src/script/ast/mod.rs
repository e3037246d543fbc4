pub mod expr;
pub mod stmt;
pub mod var_type;
pub mod display;

pub use expr::{
    collapse_get, Assign, BinaryOpType, BinaryOperator, Call, Expr, Get, Grouping, Literal,
    LiteralType, Logical, LogicalType, Rect, SetProperty, Super, This, UnaryOpType,
    UnaryOperator, Variable,
};
pub use stmt::{
    Block, Class, ExpressionStmt, FunctionParam, FunctionStmt, IfStmt, PrintStmt, ReturnStmt,
    Stmt, VarStmt, WhileStmt,
};
pub use var_type::{VarDeclType, VarType};

use vstd::prelude::*;

use crate::script::parser::{ParseError, Parser};

verus! {

/// A statement form that knows how to parse itself.
pub trait ParseStmt {
    fn parse(parser: &mut Parser) -> Result<Stmt, ParseError>;
}

/// An expression form that knows how to parse itself.
pub trait ParseExpr {
    fn parse(parser: &mut Parser) -> Result<Expr, ParseError>;
}

/// Where a node is shown: its depth in the tree.
pub struct DisplayArgs {
    pub depth: usize,
}

pub struct CompileArgs;

pub struct WalkArgs;

pub struct ByteCode;

/// How a node is shown: at its depth, its own line, and (where it has them)
/// one label per child.
pub struct AstDisplay {
    pub depth: usize,
    pub primary: String,
    pub labels: Option<Vec<String>>,
}

/// A parsed program: its top-level statements in order.
#[derive(Debug)]
pub struct Ast {
    pub stmts: Vec<Stmt>,
}

impl View for Ast {
    type V = Seq<stmt::SStmt>;

    open spec fn view(&self) -> Seq<stmt::SStmt> {
        stmt::stmts_view(self.stmts@)
    }
}

} // verus!
