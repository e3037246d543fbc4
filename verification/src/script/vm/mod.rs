pub mod chunk;
pub mod debug;
pub mod gc;
pub mod object;
pub mod vm_shape;

use vstd::prelude::*;

verus! {

/// An error raised while a script runs: where, what, and the calls that led
/// there.
#[derive(Debug)]
pub struct RuntimeError {
    pub stack_trace: String,
    pub msg: String,
    pub line: usize,
}

/// An error found while compiling a script.
#[derive(Debug)]
pub struct CompileError {
    pub msg: String,
}

} // verus!
