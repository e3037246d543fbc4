use vstd::prelude::*;

use crate::script::scanner::utf8_len;
use crate::script::text::{decimal, push_decimal, push_spaces, push_str, spaces_seq, string_push};
use crate::script::vm::chunk::{opcode_text, OpCode};

verus! {

/// Column at which `right_adjust` puts its separator.
pub const RIGHT_COLUMN: usize = 60;

/// `msg`, a space, spaces up to column 60 and `"| "`: the left part of a line
/// of a listing. The message must be shorter than the column, counted in
/// bytes.
pub fn right_adjust(msg: &str) -> (r: String)
    requires
        utf8_len(msg@) < RIGHT_COLUMN,
    ensures
        r@ == msg@ + " "@ + spaces_seq((RIGHT_COLUMN - utf8_len(msg@)) as nat) + "| "@,
{
    let len = msg.len();
    let spaces = RIGHT_COLUMN - len;
    let mut s = String::new();
    push_str(&mut s, msg);
    push_str(&mut s, " ");
    push_spaces(&mut s, spaces);
    push_str(&mut s, "| ");
    s
}

/// `t` followed by spaces up to `w` characters.
pub open spec fn pad_right(t: Seq<char>, w: nat) -> Seq<char> {
    if t.len() < w {
        t + spaces_seq((w - t.len()) as nat)
    } else {
        t
    }
}

/// `count` copies of `c`.
pub open spec fn fill_seq(c: char, count: nat) -> Seq<char> {
    Seq::new(count, |i: int| c)
}

/// `t` preceded by copies of `c` up to `w` characters.
pub open spec fn pad_left(t: Seq<char>, w: nat, c: char) -> Seq<char> {
    if t.len() < w {
        fill_seq(c, (w - t.len()) as nat) + t
    } else {
        t
    }
}

/// `n` in decimal, right-aligned in four columns.
pub open spec fn field4(n: nat) -> Seq<char> {
    pad_left(decimal(n), 4, ' ')
}

/// The listing of an instruction without operand.
pub open spec fn simple_text(name: Seq<char>) -> Seq<char> {
    pad_right(name, 16) + "    _ _"@
}

/// The listing of an instruction with a small integer operand.
pub open spec fn byte_text(name: Seq<char>, n: nat) -> Seq<char> {
    pad_right(name, 16) + " "@ + field4(n)
}

/// The listing of an instruction that names a constant, with the constant
/// as it is shown.
pub open spec fn constant_text(name: Seq<char>, index: nat, value: Seq<char>) -> Seq<char> {
    pad_right(name, 16) + " "@ + field4(index) + " "@ + pad_right(value, 30) + " "@
}

/// The listing of a jump of `offset` that lands at `dest`.
pub open spec fn jump_text(name: Seq<char>, offset: nat, dest: nat) -> Seq<char> {
    pad_right(name, 16) + " "@ + field4(offset) + " -> "@ + decimal(dest)
}

/// Where a backward jump of `offset` from `ip` lands, as the machine's
/// unsigned word: below zero it wraps around.
pub open spec fn back_dest(ip: nat, offset: nat) -> nat {
    if offset <= ip {
        (ip - offset) as nat
    } else {
        (usize::MAX + 1 + ip - offset) as nat
    }
}

/// The message that the listing shows for `op` at `ip`, the constants given
/// as they are shown; `None` for the instructions the listing has no form for.
pub open spec fn instruction_text(op: OpCode, ip: nat, constants: Seq<Seq<char>>) -> Option<Seq<char>> {
    match op {
        OpCode::GetConstant { index } => Some(
            constant_text("OP_CONSTANT"@, index.0 as nat, constants[index.0 as int]),
        ),
        OpCode::DefGlobal { name_idx } => Some(
            constant_text("OP_DEF_GLOBAL"@, name_idx.0 as nat, constants[name_idx.0 as int]),
        ),
        OpCode::GetGlobal { name_idx } => Some(
            constant_text("OP_GET_GLOBAL"@, name_idx.0 as nat, constants[name_idx.0 as int]),
        ),
        OpCode::SetGlobal { name_idx } => Some(
            constant_text("OP_SET_GLOBAL"@, name_idx.0 as nat, constants[name_idx.0 as int]),
        ),
        OpCode::GetLocal { offset } => Some(byte_text("OP_GET_LOCAL"@, offset.0 as nat)),
        OpCode::SetLocal { offset } => Some(byte_text("OP_SET_LOCAL"@, offset.0 as nat)),
        OpCode::JumpIfFalse { offset } => Some(
            jump_text("OP_JUMP_IF_FALSE"@, offset.0 as nat, ip + offset.0 as nat),
        ),
        OpCode::JumpIfTrue { offset } => Some(
            jump_text("OP_JUMP_IF_TRUE"@, offset.0 as nat, ip + offset.0 as nat),
        ),
        OpCode::Jump { offset } => Some(jump_text("OP_JUMP"@, offset.0 as nat, ip + offset.0 as nat)),
        OpCode::Loop { offset } => Some(
            jump_text("OP_LOOP"@, offset.0 as nat, back_dest(ip, offset.0 as nat)),
        ),
        OpCode::Call { arg_count } => Some(byte_text("OP_CALL"@, arg_count as nat)),
        OpCode::Nil => Some(simple_text("OP_NIL"@)),
        OpCode::True => Some(simple_text("OP_TRUE"@)),
        OpCode::False => Some(simple_text("OP_FALSE"@)),
        OpCode::Pop => Some(simple_text("OP_POP"@)),
        OpCode::Equal => Some(simple_text("OP_EQUAL"@)),
        OpCode::Greater => Some(simple_text("OP_GREATER"@)),
        OpCode::Less => Some(simple_text("OP_LESS"@)),
        OpCode::Add => Some(simple_text("OP_ADD"@)),
        OpCode::Subtract => Some(simple_text("OP_SUBTRACT"@)),
        OpCode::Multiply => Some(simple_text("OP_MULTIPLY"@)),
        OpCode::Divide => Some(simple_text("OP_DIVIDE"@)),
        OpCode::Not => Some(simple_text("OP_NOT"@)),
        OpCode::Print => Some(simple_text("OP_PRINT"@)),
        OpCode::Negate => Some(simple_text("OP_NEGATE"@)),
        OpCode::Return => Some(simple_text("OP_RETURN"@)),
        _ => None,
    }
}

/// The line column of the listing at `ip`: nothing without line table, a bar
/// where the line is that of the previous instruction, else the line number.
pub open spec fn line_info_text(lines: Seq<usize>, ip: int) -> Seq<char> {
    if lines.len() == 0 {
        Seq::empty()
    } else if ip > 0 && lines[ip] == lines[ip - 1] {
        "   | "@
    } else {
        field4(lines[ip] as nat) + " "@
    }
}

/// `msg` right-adjusted to the separator column.
pub open spec fn adjusted(msg: Seq<char>) -> Seq<char> {
    msg + " "@ + spaces_seq((RIGHT_COLUMN - utf8_len(msg)) as nat) + "| "@
}

/// The line of the listing for `op` at `ip`: the address in four digits, the
/// line column and the adjusted message.
pub open spec fn listing_text(op: OpCode, ip: nat, lines: Seq<usize>, constants: Seq<Seq<char>>) -> Option<
    Seq<char>,
> {
    match instruction_text(op, ip, constants) {
        Some(msg) => Some(
            pad_left(decimal(ip), 4, '0') + " "@ + line_info_text(lines, ip as int) + adjusted(msg),
        ),
        None => None,
    }
}

/// The shown constants, as text.
pub open spec fn texts_view(constants: Seq<String>) -> Seq<Seq<char>> {
    constants.map_values(|c: String| c@)
}

/// Whether listing `op` at `ip` stays within the tables and the machine's
/// integers, and its message fits left of the separator column.
pub open spec fn listable(op: OpCode, ip: nat, lines: Seq<usize>, constants: Seq<Seq<char>>) -> bool {
    &&& (lines.len() == 0 || ip < lines.len())
    &&& match op {
        OpCode::GetConstant { index } => index.0 < constants.len(),
        OpCode::DefGlobal { name_idx } => name_idx.0 < constants.len(),
        OpCode::GetGlobal { name_idx } => name_idx.0 < constants.len(),
        OpCode::SetGlobal { name_idx } => name_idx.0 < constants.len(),
        OpCode::JumpIfFalse { offset } => ip + offset.0 <= isize::MAX,
        OpCode::JumpIfTrue { offset } => ip + offset.0 <= isize::MAX,
        OpCode::Jump { offset } => ip + offset.0 <= isize::MAX,
        OpCode::Loop { offset } => ip <= isize::MAX && offset.0 <= isize::MAX,
        _ => true,
    }
    &&& (instruction_text(op, ip, constants) matches Some(msg) ==> utf8_len(msg) < RIGHT_COLUMN)
}

/// Appends `t` and spaces up to `w` characters.
fn push_padded_right(s: &mut String, t: &str, w: usize)
    ensures
        final(s)@ == old(s)@ + pad_right(t@, w as nat),
{
    push_str(s, t);
    let n = t.unicode_len();
    if n < w {
        push_spaces(s, w - n);
    }
}

/// Appends `count` copies of `c`.
fn push_fill(s: &mut String, c: char, count: usize)
    ensures
        final(s)@ == old(s)@ + fill_seq(c, count as nat),
{
    let ghost start = s@;
    let mut i: usize = 0;
    while i < count
        invariant
            i <= count,
            s@ == start + fill_seq(c, i as nat),
        decreases count - i,
    {
        string_push(s, c);
        i = i + 1;
        assert(s@ =~= start + fill_seq(c, i as nat));
    }
}

/// Appends `n` in decimal, padded on the left with `c` to `w` characters.
fn push_number_padded(s: &mut String, n: usize, w: usize, c: char)
    ensures
        final(s)@ == old(s)@ + pad_left(decimal(n as nat), w as nat, c),
{
    let mut d = String::new();
    push_decimal(&mut d, n);
    assert(d@ =~= decimal(n as nat));
    let len = d.as_str().unicode_len();
    if len < w {
        push_fill(s, c, w - len);
    }
    push_str(s, d.as_str());
    assert(s@ =~= old(s)@ + pad_left(decimal(n as nat), w as nat, c));
}

fn simple_instruction(name: &str) -> (r: String)
    ensures
        r@ == simple_text(name@),
{
    let mut s = String::new();
    push_padded_right(&mut s, name, 16);
    push_str(&mut s, "    _ _");
    assert(s@ =~= simple_text(name@));
    s
}

fn byte_instruction(name: &str, n: usize) -> (r: String)
    ensures
        r@ == byte_text(name@, n as nat),
{
    let mut s = String::new();
    push_padded_right(&mut s, name, 16);
    push_str(&mut s, " ");
    push_number_padded(&mut s, n, 4, ' ');
    assert(s@ =~= byte_text(name@, n as nat));
    s
}

fn constant_instruction(name: &str, index: usize, value: &str) -> (r: String)
    ensures
        r@ == constant_text(name@, index as nat, value@),
{
    let mut s = String::new();
    push_padded_right(&mut s, name, 16);
    push_str(&mut s, " ");
    push_number_padded(&mut s, index, 4, ' ');
    push_str(&mut s, " ");
    push_padded_right(&mut s, value, 30);
    push_str(&mut s, " ");
    assert(s@ =~= constant_text(name@, index as nat, value@));
    s
}

fn jump_instruction(name: &str, offset: usize, dest: usize) -> (r: String)
    ensures
        r@ == jump_text(name@, offset as nat, dest as nat),
{
    let mut s = String::new();
    push_padded_right(&mut s, name, 16);
    push_str(&mut s, " ");
    push_number_padded(&mut s, offset, 4, ' ');
    push_str(&mut s, " -> ");
    push_decimal(&mut s, dest);
    assert(s@ =~= jump_text(name@, offset as nat, dest as nat));
    s
}

/// The message of the listing for `op` at `ip`.
pub fn instruction_message(op: &OpCode, ip: usize, constants: &Vec<String>) -> (r: Option<String>)
    requires
        listable(*op, ip as nat, Seq::empty(), texts_view(constants@)),
    ensures
        match instruction_text(*op, ip as nat, texts_view(constants@)) {
            Some(m) => r matches Some(s) && s@ == m,
            None => r is None,
        },
{
    let r = match op {
        OpCode::GetConstant { index } => constant_instruction(
            "OP_CONSTANT",
            index.0,
            constants[index.0].as_str(),
        ),
        OpCode::DefGlobal { name_idx } => constant_instruction(
            "OP_DEF_GLOBAL",
            name_idx.0,
            constants[name_idx.0].as_str(),
        ),
        OpCode::GetGlobal { name_idx } => constant_instruction(
            "OP_GET_GLOBAL",
            name_idx.0,
            constants[name_idx.0].as_str(),
        ),
        OpCode::SetGlobal { name_idx } => constant_instruction(
            "OP_SET_GLOBAL",
            name_idx.0,
            constants[name_idx.0].as_str(),
        ),
        OpCode::GetLocal { offset } => byte_instruction("OP_GET_LOCAL", offset.0),
        OpCode::SetLocal { offset } => byte_instruction("OP_SET_LOCAL", offset.0),
        OpCode::JumpIfFalse { offset } => jump_instruction("OP_JUMP_IF_FALSE", offset.0, ip + offset.0),
        OpCode::JumpIfTrue { offset } => jump_instruction("OP_JUMP_IF_TRUE", offset.0, ip + offset.0),
        OpCode::Jump { offset } => jump_instruction("OP_JUMP", offset.0, ip + offset.0),
        OpCode::Loop { offset } => {
            let dest = if offset.0 <= ip {
                ip - offset.0
            } else {
                usize::MAX - (offset.0 - ip) + 1
            };
            jump_instruction("OP_LOOP", offset.0, dest)
        },
        OpCode::Call { arg_count } => byte_instruction("OP_CALL", *arg_count),
        OpCode::Nil => simple_instruction("OP_NIL"),
        OpCode::True => simple_instruction("OP_TRUE"),
        OpCode::False => simple_instruction("OP_FALSE"),
        OpCode::Pop => simple_instruction("OP_POP"),
        OpCode::Equal => simple_instruction("OP_EQUAL"),
        OpCode::Greater => simple_instruction("OP_GREATER"),
        OpCode::Less => simple_instruction("OP_LESS"),
        OpCode::Add => simple_instruction("OP_ADD"),
        OpCode::Subtract => simple_instruction("OP_SUBTRACT"),
        OpCode::Multiply => simple_instruction("OP_MULTIPLY"),
        OpCode::Divide => simple_instruction("OP_DIVIDE"),
        OpCode::Not => simple_instruction("OP_NOT"),
        OpCode::Print => simple_instruction("OP_PRINT"),
        OpCode::Negate => simple_instruction("OP_NEGATE"),
        OpCode::Return => simple_instruction("OP_RETURN"),
        _ => {
            return None;
        },
    };
    Some(r)
}

/// Appends the line column of the listing at `ip`.
fn push_line_info(s: &mut String, lines: &Vec<usize>, ip: usize)
    requires
        lines@.len() == 0 || ip < lines@.len(),
    ensures
        final(s)@ == old(s)@ + line_info_text(lines@, ip as int),
{
    if lines.len() == 0 {
        assert(s@ =~= old(s)@ + line_info_text(lines@, ip as int));
        return;
    }
    if ip > 0 && lines[ip] == lines[ip - 1] {
        push_str(s, "   | ");
    } else {
        push_number_padded(s, lines[ip], 4, ' ');
        push_str(s, " ");
    }
    assert(s@ =~= old(s)@ + line_info_text(lines@, ip as int));
}

/// The line of a listing for `op` at address `ip`, with the line table of
/// the chunk and its constants as they are shown; `None` for instructions
/// the listing has no form for.
pub fn disassemble_line(op: &OpCode, ip: usize, lines: &Vec<usize>, constants: &Vec<String>) -> (r:
    Option<String>)
    requires
        listable(*op, ip as nat, lines@, texts_view(constants@)),
    ensures
        match listing_text(*op, ip as nat, lines@, texts_view(constants@)) {
            Some(t) => r matches Some(s) && s@ == t,
            None => r is None,
        },
{
    let msg = match instruction_message(op, ip, constants) {
        Some(m) => m,
        None => {
            return None;
        },
    };
    let mut s = String::new();
    push_number_padded(&mut s, ip, 4, '0');
    push_str(&mut s, " ");
    push_line_info(&mut s, lines, ip);
    let adj = right_adjust(msg.as_str());
    push_str(&mut s, adj.as_str());
    assert(s@ =~= listing_text(*op, ip as nat, lines@, texts_view(constants@))->0);
    Some(s)
}

/// `s` with its small letters made capitals.
pub open spec fn upper(s: Seq<char>) -> Seq<char> {
    s.map_values(|ch: char| if 'a' <= ch <= 'z' { ((ch as int) - 32) as char } else { ch })
}

/// The instructions that take no operand.
pub open spec fn has_no_operand(op: OpCode) -> bool {
    op is Nil || op is True || op is False || op is Pop || op is Equal || op is Greater || op is Less || op is Add || op is Subtract || op is Multiply || op is Divide || op is Not || op is Print || op is Negate || op is Return
}

/// The listing of an instruction without operand names it by its own name.
proof fn lemma_simple_listing(op: OpCode, ip: nat, constants: Seq<Seq<char>>)
    requires
        has_no_operand(op),
    ensures
        instruction_text(op, ip, constants) == Some(simple_text("OP_"@ + upper(opcode_text(op)))),
        ("OP_"@ + upper(opcode_text(op))).len() >= 5,
{
    reveal_strlit("    _ _");
    reveal_strlit("Add");
    reveal_strlit("Divide");
    reveal_strlit("Equal");
    reveal_strlit("False");
    reveal_strlit("Greater");
    reveal_strlit("Less");
    reveal_strlit("Multiply");
    reveal_strlit("Negate");
    reveal_strlit("Nil");
    reveal_strlit("Not");
    reveal_strlit("OP_");
    reveal_strlit("OP_ADD");
    reveal_strlit("OP_DIVIDE");
    reveal_strlit("OP_EQUAL");
    reveal_strlit("OP_FALSE");
    reveal_strlit("OP_GREATER");
    reveal_strlit("OP_LESS");
    reveal_strlit("OP_MULTIPLY");
    reveal_strlit("OP_NEGATE");
    reveal_strlit("OP_NIL");
    reveal_strlit("OP_NOT");
    reveal_strlit("OP_POP");
    reveal_strlit("OP_PRINT");
    reveal_strlit("OP_RETURN");
    reveal_strlit("OP_SUBTRACT");
    reveal_strlit("OP_TRUE");
    reveal_strlit("Pop");
    reveal_strlit("Print");
    reveal_strlit("Return");
    reveal_strlit("Subtract");
    reveal_strlit("True");
    if op is Nil {
        assert("OP_"@ + upper(opcode_text(op)) =~= "OP_NIL"@);
    } else if op is True {
        assert("OP_"@ + upper(opcode_text(op)) =~= "OP_TRUE"@);
    } else if op is False {
        assert("OP_"@ + upper(opcode_text(op)) =~= "OP_FALSE"@);
    } else if op is Pop {
        assert("OP_"@ + upper(opcode_text(op)) =~= "OP_POP"@);
    } else if op is Equal {
        assert("OP_"@ + upper(opcode_text(op)) =~= "OP_EQUAL"@);
    } else if op is Greater {
        assert("OP_"@ + upper(opcode_text(op)) =~= "OP_GREATER"@);
    } else if op is Less {
        assert("OP_"@ + upper(opcode_text(op)) =~= "OP_LESS"@);
    } else if op is Add {
        assert("OP_"@ + upper(opcode_text(op)) =~= "OP_ADD"@);
    } else if op is Subtract {
        assert("OP_"@ + upper(opcode_text(op)) =~= "OP_SUBTRACT"@);
    } else if op is Multiply {
        assert("OP_"@ + upper(opcode_text(op)) =~= "OP_MULTIPLY"@);
    } else if op is Divide {
        assert("OP_"@ + upper(opcode_text(op)) =~= "OP_DIVIDE"@);
    } else if op is Not {
        assert("OP_"@ + upper(opcode_text(op)) =~= "OP_NOT"@);
    } else if op is Print {
        assert("OP_"@ + upper(opcode_text(op)) =~= "OP_PRINT"@);
    } else if op is Negate {
        assert("OP_"@ + upper(opcode_text(op)) =~= "OP_NEGATE"@);
    } else if op is Return {
        assert("OP_"@ + upper(opcode_text(op)) =~= "OP_RETURN"@);
    }
}

/// Law: an instruction without operand is listed under `OP_` and the name it
/// is shown by (`OpCode::to_string`), in capitals; so distinct instructions
/// without operand are listed differently.
pub proof fn law_listing_names(op: OpCode, other: OpCode, ip: nat, constants: Seq<Seq<char>>)
    ensures
        has_no_operand(op) ==> instruction_text(op, ip, constants) == Some(
            simple_text("OP_"@ + upper(opcode_text(op))),
        ),
        has_no_operand(op) && has_no_operand(other) && instruction_text(op, ip, constants)
            == instruction_text(other, ip, constants) ==> op == other,
{
    if has_no_operand(op) {
        lemma_simple_listing(op, ip, constants);
    }
    if has_no_operand(op) && has_no_operand(other) {
        lemma_simple_listing(other, ip, constants);
        let m1 = instruction_text(op, ip, constants)->0;
        let m2 = instruction_text(other, ip, constants)->0;
        let n1 = "OP_"@ + upper(opcode_text(op));
        let n2 = "OP_"@ + upper(opcode_text(other));
    reveal_strlit("    _ _");
    reveal_strlit("Add");
    reveal_strlit("Divide");
    reveal_strlit("Equal");
    reveal_strlit("False");
    reveal_strlit("Greater");
    reveal_strlit("Less");
    reveal_strlit("Multiply");
    reveal_strlit("Negate");
    reveal_strlit("Nil");
    reveal_strlit("Not");
    reveal_strlit("OP_");
    reveal_strlit("OP_ADD");
    reveal_strlit("OP_DIVIDE");
    reveal_strlit("OP_EQUAL");
    reveal_strlit("OP_FALSE");
    reveal_strlit("OP_GREATER");
    reveal_strlit("OP_LESS");
    reveal_strlit("OP_MULTIPLY");
    reveal_strlit("OP_NEGATE");
    reveal_strlit("OP_NIL");
    reveal_strlit("OP_NOT");
    reveal_strlit("OP_POP");
    reveal_strlit("OP_PRINT");
    reveal_strlit("OP_RETURN");
    reveal_strlit("OP_SUBTRACT");
    reveal_strlit("OP_TRUE");
    reveal_strlit("Pop");
    reveal_strlit("Print");
    reveal_strlit("Return");
    reveal_strlit("Subtract");
    reveal_strlit("True");
        if m1 == m2 {
            assert(m1[3] == m2[3] && m1[4] == m2[4]);
            assert(m1[3] == n1[3] && m1[4] == n1[4]);
            assert(m2[3] == n2[3] && m2[4] == n2[4]);
        }
    }
}

} // verus!
