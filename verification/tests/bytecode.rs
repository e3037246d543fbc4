use shape_script::script::vm::chunk::{BytecodeIndex, Chunk, ConstIndex, Offset, OpCode, StackOffset, UpvalueIndex};
use shape_script::script::vm::debug::{disassemble_line, instruction_message, right_adjust};

#[test]
fn opcode_text_with_operands() {
    assert_eq!(OpCode::GetConstant { index: ConstIndex(7) }.to_string(), "Constant 7");
    assert_eq!(OpCode::GetLocal { offset: StackOffset(3) }.to_string(), "GetLocal 3");
    assert_eq!(OpCode::GetUpvalue { index: UpvalueIndex(12) }.to_string(), "GetUpvalue 12");
    assert_eq!(OpCode::Loop { offset: Offset(105) }.to_string(), "Loop 105");
    assert_eq!(OpCode::Call { arg_count: 2 }.to_string(), "Call (args: 2)");
    assert_eq!(OpCode::Closure { func_name: "fib".to_string() }.to_string(), "Closure fib");
}

#[test]
fn opcode_text_without_operands() {
    assert_eq!(OpCode::Nil.to_string(), "Nil");
    assert_eq!(OpCode::Negate.to_string(), "Negate");
    assert_eq!(OpCode::Return.to_string(), "Return");
}

#[test]
fn chunk_write_op_appends_code_and_line() {
    let mut chunk = Chunk::new();
    assert_eq!(chunk.write_op(OpCode::Nil, 4), BytecodeIndex(0));
    assert_eq!(chunk.write_op(OpCode::Print, 5), BytecodeIndex(1));
    assert_eq!(chunk.code.len(), 2);
    assert_eq!(chunk.lines, vec![4, 5]);
    assert_eq!(chunk.code[1].to_string(), "Print");
}

fn adjust(msg: &str) -> String {
    format!("{} {}| ", msg, " ".repeat(60 - msg.len()))
}

#[test]
fn listing_simple_instruction() {
    let line = disassemble_line(&OpCode::Nil, 0, &vec![3], &vec![]).unwrap();
    let expected = format!("0000    3 {}", adjust("OP_NIL              _ _"));
    assert_eq!(line, expected);
    assert_eq!(right_adjust("OP_NIL              _ _"), adjust("OP_NIL              _ _"));
}

#[test]
fn listing_repeats_bar_for_same_line() {
    let lines = vec![7, 7];
    let line = disassemble_line(&OpCode::Return, 1, &lines, &vec![]).unwrap();
    assert_eq!(line, format!("0001    | {}", adjust(&format!("{:16} {:3}_ _", "OP_RETURN", ""))));
}

#[test]
fn listing_without_line_table() {
    let line = disassemble_line(&OpCode::GetLocal { offset: StackOffset(12) }, 42, &vec![], &vec![]).unwrap();
    assert_eq!(line, format!("0042 {}", adjust("OP_GET_LOCAL       12")));
}

#[test]
fn listing_constant_shows_its_value() {
    let constants = vec!["1.5".to_string(), "name".to_string()];
    let msg = instruction_message(&OpCode::GetGlobal { name_idx: ConstIndex(1) }, 0, &constants).unwrap();
    assert_eq!(msg, format!("{:16} {:4} {:30} ", "OP_GET_GLOBAL", 1, "name"));
    let line = disassemble_line(&OpCode::GetConstant { index: ConstIndex(0) }, 3, &vec![1, 1, 1, 2], &constants).unwrap();
    assert_eq!(line, format!("0003    2 {}", adjust(&format!("{:16} {:4} {:30} ", "OP_CONSTANT", 0, "1.5"))));
}

#[test]
fn listing_jumps_show_destination() {
    let fwd = instruction_message(&OpCode::JumpIfFalse { offset: Offset(4) }, 10, &vec![]).unwrap();
    assert_eq!(fwd, "OP_JUMP_IF_FALSE    4 -> 14");
    let back = instruction_message(&OpCode::Loop { offset: Offset(6) }, 10, &vec![]).unwrap();
    assert_eq!(back, "OP_LOOP             6 -> 4");
    let wrapped = instruction_message(&OpCode::Loop { offset: Offset(5) }, 2, &vec![]).unwrap();
    assert_eq!(wrapped, format!("OP_LOOP             5 -> {}", usize::MAX - 2));
}

#[test]
fn listing_has_no_form_for_some_instructions() {
    assert!(instruction_message(&OpCode::GetUpvalue { index: UpvalueIndex(0) }, 0, &vec![]).is_none());
    assert!(disassemble_line(&OpCode::Closure { func_name: "f".to_string() }, 0, &vec![1], &vec![]).is_none());
}
