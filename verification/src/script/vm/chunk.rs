use vstd::prelude::*;

use crate::script::text::{decimal, push_decimal, push_str};

verus! {

/// Index of a global variable.
#[derive(Debug, Clone, Copy, PartialEq, Eq, Hash, Structural)]
pub struct GlobalIndex(pub usize);

/// Index into the constant table of a chunk.
#[derive(Debug, Clone, Copy, PartialEq, Eq, Hash, Structural)]
pub struct ConstIndex(pub usize);

/// Absolute index into the value stack.
#[derive(Debug, Clone, Copy, PartialEq, Eq, Hash, Structural)]
pub struct StackIndex(pub usize);

/// Offset from the top of the value stack.
#[derive(Debug, Clone, Copy, PartialEq, Eq, Hash, Structural)]
pub struct StackOffset(pub usize);

/// Index into the captured values of a closure.
#[derive(Debug, Clone, Copy, PartialEq, Eq, Hash, Structural)]
pub struct UpvalueIndex(pub usize);

/// A jump distance in the bytecode.
#[derive(Debug, Clone, Copy, PartialEq, Eq, Hash, Structural)]
pub struct Offset(pub usize);

/// Position of an instruction in a chunk.
#[derive(Debug, Clone, Copy, PartialEq, Eq, Hash, Structural)]
pub struct BytecodeIndex(pub usize);

impl From<usize> for BytecodeIndex {
    fn from(value: usize) -> (r: Self) {
        BytecodeIndex(value)
    }
}

impl vstd::std_specs::convert::FromSpecImpl<usize> for BytecodeIndex {
    open spec fn obeys_from_spec() -> bool {
        true
    }

    open spec fn from_spec(value: usize) -> BytecodeIndex {
        BytecodeIndex(value)
    }
}


/// An instruction of the machine; a closure is named by its function.
#[derive(Debug)]
pub enum OpCode {
    GetConstant { index: ConstIndex },
    DefGlobal { name_idx: ConstIndex },
    GetGlobal { name_idx: ConstIndex },
    SetGlobal { name_idx: ConstIndex },
    GetProperty { name_idx: ConstIndex },
    SetProperty { name_idx: ConstIndex },
    GetLocal { offset: StackOffset },
    SetLocal { offset: StackOffset },
    GetUpvalue { index: UpvalueIndex },
    SetUpvalue { index: UpvalueIndex },
    PushUpvalue { index: StackOffset },
    JumpIfFalse { offset: Offset },
    JumpIfTrue { offset: Offset },
    Jump { offset: Offset },
    Loop { offset: Offset },
    Call { arg_count: usize },
    Class { name_idx: ConstIndex },
    Closure { func_name: String },
    Nil,
    True,
    False,
    Pop,
    Equal,
    Greater,
    Less,
    Add,
    Subtract,
    Multiply,
    Divide,
    Not,
    Negate,
    Print,
    Return,
}

/// How an instruction is shown: its name and operand.
pub open spec fn opcode_text(op: OpCode) -> Seq<char> {
    match op {
        OpCode::GetConstant { index } => "Constant "@ + decimal(index.0 as nat),
        OpCode::DefGlobal { name_idx } => "DefGlobal "@ + decimal(name_idx.0 as nat),
        OpCode::GetGlobal { name_idx } => "GetGlobal "@ + decimal(name_idx.0 as nat),
        OpCode::SetGlobal { name_idx } => "SetGlobal "@ + decimal(name_idx.0 as nat),
        OpCode::GetProperty { name_idx } => "GetProperty "@ + decimal(name_idx.0 as nat),
        OpCode::SetProperty { name_idx } => "SetProperty "@ + decimal(name_idx.0 as nat),
        OpCode::GetLocal { offset } => "GetLocal "@ + decimal(offset.0 as nat),
        OpCode::SetLocal { offset } => "SetLocal "@ + decimal(offset.0 as nat),
        OpCode::GetUpvalue { index } => "GetUpvalue "@ + decimal(index.0 as nat),
        OpCode::SetUpvalue { index } => "SetUpvalue "@ + decimal(index.0 as nat),
        OpCode::PushUpvalue { index } => "PushUpvalue "@ + decimal(index.0 as nat),
        OpCode::JumpIfFalse { offset } => "JumpIfFalse "@ + decimal(offset.0 as nat),
        OpCode::JumpIfTrue { offset } => "JumpIfTrue "@ + decimal(offset.0 as nat),
        OpCode::Jump { offset } => "Jump "@ + decimal(offset.0 as nat),
        OpCode::Loop { offset } => "Loop "@ + decimal(offset.0 as nat),
        OpCode::Call { arg_count } => "Call (args: "@ + decimal(arg_count as nat) + ")"@,
        OpCode::Class { name_idx } => "Class "@ + decimal(name_idx.0 as nat),
        OpCode::Closure { func_name } => "Closure "@ + func_name@,
        OpCode::Nil => "Nil"@,
        OpCode::True => "True"@,
        OpCode::False => "False"@,
        OpCode::Pop => "Pop"@,
        OpCode::Equal => "Equal"@,
        OpCode::Greater => "Greater"@,
        OpCode::Less => "Less"@,
        OpCode::Add => "Add"@,
        OpCode::Subtract => "Subtract"@,
        OpCode::Multiply => "Multiply"@,
        OpCode::Divide => "Divide"@,
        OpCode::Not => "Not"@,
        OpCode::Negate => "Negate"@,
        OpCode::Print => "Print"@,
        OpCode::Return => "Return"@,
    }
}

impl OpCode {
    /// The instruction's name and operand.
    pub fn to_string(&self) -> (r: String)
        ensures
            r@ == opcode_text(*self),
    {
        let mut s = String::new();
        match self {
            OpCode::GetConstant { index } => {
                push_str(&mut s, "Constant ");
                push_decimal(&mut s, index.0);
            },
            OpCode::DefGlobal { name_idx } => {
                push_str(&mut s, "DefGlobal ");
                push_decimal(&mut s, name_idx.0);
            },
            OpCode::GetGlobal { name_idx } => {
                push_str(&mut s, "GetGlobal ");
                push_decimal(&mut s, name_idx.0);
            },
            OpCode::SetGlobal { name_idx } => {
                push_str(&mut s, "SetGlobal ");
                push_decimal(&mut s, name_idx.0);
            },
            OpCode::GetProperty { name_idx } => {
                push_str(&mut s, "GetProperty ");
                push_decimal(&mut s, name_idx.0);
            },
            OpCode::SetProperty { name_idx } => {
                push_str(&mut s, "SetProperty ");
                push_decimal(&mut s, name_idx.0);
            },
            OpCode::GetLocal { offset } => {
                push_str(&mut s, "GetLocal ");
                push_decimal(&mut s, offset.0);
            },
            OpCode::SetLocal { offset } => {
                push_str(&mut s, "SetLocal ");
                push_decimal(&mut s, offset.0);
            },
            OpCode::GetUpvalue { index } => {
                push_str(&mut s, "GetUpvalue ");
                push_decimal(&mut s, index.0);
            },
            OpCode::SetUpvalue { index } => {
                push_str(&mut s, "SetUpvalue ");
                push_decimal(&mut s, index.0);
            },
            OpCode::PushUpvalue { index } => {
                push_str(&mut s, "PushUpvalue ");
                push_decimal(&mut s, index.0);
            },
            OpCode::JumpIfFalse { offset } => {
                push_str(&mut s, "JumpIfFalse ");
                push_decimal(&mut s, offset.0);
            },
            OpCode::JumpIfTrue { offset } => {
                push_str(&mut s, "JumpIfTrue ");
                push_decimal(&mut s, offset.0);
            },
            OpCode::Jump { offset } => {
                push_str(&mut s, "Jump ");
                push_decimal(&mut s, offset.0);
            },
            OpCode::Loop { offset } => {
                push_str(&mut s, "Loop ");
                push_decimal(&mut s, offset.0);
            },
            OpCode::Call { arg_count } => {
                push_str(&mut s, "Call (args: ");
                push_decimal(&mut s, *arg_count);
                push_str(&mut s, ")");
            },
            OpCode::Class { name_idx } => {
                push_str(&mut s, "Class ");
                push_decimal(&mut s, name_idx.0);
            },
            OpCode::Closure { func_name } => {
                push_str(&mut s, "Closure ");
                push_str(&mut s, func_name.as_str());
            },
            OpCode::Nil => push_str(&mut s, "Nil"),
            OpCode::True => push_str(&mut s, "True"),
            OpCode::False => push_str(&mut s, "False"),
            OpCode::Pop => push_str(&mut s, "Pop"),
            OpCode::Equal => push_str(&mut s, "Equal"),
            OpCode::Greater => push_str(&mut s, "Greater"),
            OpCode::Less => push_str(&mut s, "Less"),
            OpCode::Add => push_str(&mut s, "Add"),
            OpCode::Subtract => push_str(&mut s, "Subtract"),
            OpCode::Multiply => push_str(&mut s, "Multiply"),
            OpCode::Divide => push_str(&mut s, "Divide"),
            OpCode::Not => push_str(&mut s, "Not"),
            OpCode::Negate => push_str(&mut s, "Negate"),
            OpCode::Print => push_str(&mut s, "Print"),
            OpCode::Return => push_str(&mut s, "Return"),
        }
        s
    }
}

/// A sequence of instructions, each with the line of source it came from.
#[derive(Debug)]
pub struct Chunk {
    pub code: Vec<OpCode>,
    pub lines: Vec<usize>,
}

impl Chunk {
    pub fn new() -> (r: Self)
        ensures
            r.code@ == Seq::<OpCode>::empty(),
            r.lines@ == Seq::<usize>::empty(),
    {
        Chunk { code: Vec::new(), lines: Vec::new() }
    }

    /// Appends `op`, from `line`, and gives its position.
    pub fn write_op(&mut self, op: OpCode, line: usize) -> (r: BytecodeIndex)
        ensures
            final(self).code@ == old(self).code@.push(op),
            final(self).lines@ == old(self).lines@.push(line),
            r == BytecodeIndex(old(self).code@.len() as usize),
    {
        let index = self.code.len();
        self.code.push(op);
        self.lines.push(line);
        BytecodeIndex(index)
    }
}

} // verus!
