use vstd::prelude::*;

use crate::script::vm::chunk::{StackOffset, UpvalueIndex};

verus! {

/// Where a variable that an expression refers to lives.
#[derive(Debug, PartialEq, Eq, Clone, Copy, Structural)]
pub enum VarType {
    Global,
    Upvalue(UpvalueIndex),
    Local(StackOffset),
}

/// Where a declared variable lives.
#[derive(Debug, PartialEq, Eq, Clone, Copy, Structural)]
pub enum VarDeclType {
    Global,
    Upvalue,
    Local,
}

impl VarType {
    /// The name under which the kind is displayed.
    pub fn display_name(&self) -> (r: &'static str)
        ensures
            r@ == match self {
                VarType::Global => "Global"@,
                VarType::Upvalue(_) => "Upvalue"@,
                VarType::Local(_) => "Local"@,
            },
    {
        match self {
            VarType::Global => "Global",
            VarType::Upvalue(_) => "Upvalue",
            VarType::Local(_) => "Local",
        }
    }
}

impl VarDeclType {
    /// The name under which the kind is displayed.
    pub fn display_name(&self) -> (r: &'static str)
        ensures
            r@ == match self {
                VarDeclType::Global => "Global Decl"@,
                VarDeclType::Upvalue => "Upvalue Decl"@,
                VarDeclType::Local => "Local Decl"@,
            },
    {
        match self {
            VarDeclType::Global => "Global Decl",
            VarDeclType::Upvalue => "Upvalue Decl",
            VarDeclType::Local => "Local Decl",
        }
    }
}

} // verus!
