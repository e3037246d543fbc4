use vstd::prelude::*;

use crate::script::ast::Stmt;
use crate::script::runtime::ScriptRuntime;

verus! {

/// Runs statements on behalf of a runtime; it does not evaluate anything yet.
pub struct Interpreter<'a> {
    pub runtime: &'a ScriptRuntime,
    pub stmts: Vec<Stmt>,
}

impl<'a> Interpreter<'a> {
    pub fn new(runtime: &'a ScriptRuntime, stmts: Vec<Stmt>) -> (r: Interpreter<'a>)
        ensures
            r.runtime == runtime,
            r.stmts == stmts,
    {
        Interpreter { runtime, stmts }
    }

    /// Sets up an interpreter for `stmts`; nothing is evaluated yet.
    pub fn interpret(runtime: &'a ScriptRuntime, stmts: Vec<Stmt>) {
        let _interpreter = Interpreter::new(runtime, stmts);
    }
}

} // verus!
