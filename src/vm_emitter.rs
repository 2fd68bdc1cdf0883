//! Lowering of VM instructions to assembly text, one fixed-shape block per
//! instruction.
use vstd::prelude::*;
use crate::text::{decimal, push_decimal, join_with};
use crate::vm_parser::{ArithInstruction, Command, Instruction, Segment, commands_of};

verus! {

/// Moves the top of the stack into D.
pub open spec fn pop_to_d() -> Seq<char> {
    "@SP\nM=M-1\nA=M\nD=M"@
}

/// Pushes D onto the stack.
pub open spec fn push_d() -> Seq<char> {
    "@SP\nA=M\nM=D\n@SP\nM=M+1"@
}

/// Pops the top two cells, combines them with `op` and pushes the result.
pub open spec fn binary_block(op: Seq<char>) -> Seq<char> {
    "@SP\nM=M-1\nA=M\nD=M\n@SP\nM=M-1\nA=M\n"@ + op + "\n@SP\nM=M+1"@
}

/// Applies `op` to the top cell in place.
pub open spec fn unary_block(op: Seq<char>) -> Seq<char> {
    "@SP\nM=M-1\nA=M\n"@ + op + "\n@SP\nM=M+1"@
}

/// The jump target taken when a comparison holds: `<OP>_<index>`.
pub open spec fn success_symbol(op: Seq<char>, index: nat) -> Seq<char> {
    op + "_"@ + decimal(index)
}

/// The jump target past a comparison: `NOT_<OP>_<index>`.
pub open spec fn failure_symbol(op: Seq<char>, index: nat) -> Seq<char> {
    "NOT_"@ + success_symbol(op, index)
}

/// Pops two cells, subtracts and pushes all ones where the comparison `op`
/// holds and zero where it does not, with jump targets numbered `index`.
pub open spec fn comparison_block(index: nat, op: Seq<char>) -> Seq<char> {
    binary_block(
        "D=M-D\n@"@ + success_symbol(op, index) + "\nD;J"@ + op + "\n@SP\nA=M\nM=0\n@"@
            + failure_symbol(op, index) + "\n0;JMP\n("@ + success_symbol(op, index)
            + ")\n@SP\nA=M\nM=-1\n("@ + failure_symbol(op, index) + ")"@,
    )
}

pub open spec fn push_fixed_block(base: Seq<char>, offset: nat) -> Seq<char> {
    "@"@ + base + "\nD=M\n@"@ + decimal(offset) + "\nD=D+A\nA=D\nD=M\n"@ + push_d()
}

pub open spec fn pop_fixed_block(base: Seq<char>, offset: nat) -> Seq<char> {
    "@"@ + base + "\nD=M\n@"@ + decimal(offset) + "\nD=D+A\n@SP\nM=M-1\nA=M\nD=D+M\n@SP\nA=M\nA=D-M\nM=D-A"@
}

pub open spec fn push_constant_block(n: nat) -> Seq<char> {
    "@"@ + decimal(n) + "\nD=A\n"@ + push_d()
}

/// The storage slot of a static variable: `<program>.<offset>`.
pub open spec fn static_symbol(program: Seq<char>, offset: nat) -> Seq<char> {
    program + "."@ + decimal(offset)
}

pub open spec fn push_static_block(program: Seq<char>, offset: nat) -> Seq<char> {
    "@"@ + static_symbol(program, offset) + "\nD=M\n"@ + push_d()
}

pub open spec fn pop_static_block(program: Seq<char>, offset: nat) -> Seq<char> {
    pop_to_d() + "\n@"@ + static_symbol(program, offset) + "\nM=D"@
}

pub open spec fn push_temp_block(offset: nat) -> Seq<char> {
    "@5\nD=A\n@"@ + decimal(offset) + "\nD=D+A\nA=D\nD=M\n"@ + push_d()
}

pub open spec fn pop_temp_block(offset: nat) -> Seq<char> {
    "@5\nD=A\n@"@ + decimal(offset) + "\nD=D+A\n@SP\nM=M-1\nA=M\nD=D+M\n@SP\nA=M\nA=D-M\nM=D-A"@
}

/// The register that pointer `offset` stands for.
pub open spec fn pointer_register(offset: nat) -> Seq<char> {
    if offset == 0 { "THIS"@ } else { "THAT"@ }
}

pub open spec fn push_pointer_block(offset: nat) -> Seq<char> {
    "@"@ + pointer_register(offset) + "\nD=M\n"@ + push_d()
}

pub open spec fn pop_pointer_block(offset: nat) -> Seq<char> {
    "@SP\nM=M-1\nA=M\nD=M\n@"@ + pointer_register(offset) + "\nM=D"@
}

/// Pushes `k` zeros, one per local variable of a function.
pub open spec fn zero_locals(k: nat) -> Seq<char>
    decreases k,
{
    if k == 0 {
        Seq::empty()
    } else {
        zero_locals((k - 1) as nat) + "\n@SP\nA=M\nM=0\n@SP\nM=M+1"@
    }
}

/// Restores the caller's frame, puts the return value where the caller's
/// stack continues, and jumps to the saved return address.
pub open spec fn return_block() -> Seq<char> {
    "@LCL\nD=M\n@R13\nM=D\n@5\nA=D-A\nD=M\n@R14\nM=D\n@SP\nAM=M-1\nD=M\n@ARG\nA=M\nM=D\n@ARG\nD=M+1\n@SP\nM=D\n@R13\nAM=M-1\nD=M\n@THAT\nM=D\n@R13\nAM=M-1\nD=M\n@THIS\nM=D\n@R13\nAM=M-1\nD=M\n@ARG\nM=D\n@R13\nAM=M-1\nD=M\n@LCL\nM=D\n@R14\nA=M\n0;JMP"@
}

/// The mnemonic of a comparison in jump targets and jump conditions.
pub open spec fn comparison_name(op: ArithInstruction) -> Seq<char> {
    match op {
        ArithInstruction::Eq => "EQ"@,
        ArithInstruction::Gt => "GT"@,
        _ => "LT"@,
    }
}

pub open spec fn arith_block(op: ArithInstruction, index: nat) -> Seq<char> {
    match op {
        ArithInstruction::Add => binary_block("M=M+D"@),
        ArithInstruction::Sub => binary_block("M=M-D"@),
        ArithInstruction::And => binary_block("M=D&M"@),
        ArithInstruction::Or => binary_block("M=D|M"@),
        ArithInstruction::Neg => unary_block("M=-M"@),
        ArithInstruction::Not => unary_block("M=!M"@),
        _ => comparison_block(index, comparison_name(op)),
    }
}

/// The base register of a fixed segment.
pub open spec fn base_register(seg: Segment) -> Seq<char> {
    match seg {
        Segment::Local => "LCL"@,
        Segment::Argument => "ARG"@,
        Segment::This => "THIS"@,
        _ => "THAT"@,
    }
}

pub open spec fn is_fixed(seg: Segment) -> bool {
    seg == Segment::Local || seg == Segment::Argument || seg == Segment::This || seg == Segment::That
}

/// The block of one instruction, `index` being its place among the lowered ones.
pub open spec fn block(program: Seq<char>, cmd: Command, index: nat) -> Seq<char> {
    match cmd {
        Command::Arithmetic(op) => arith_block(op, index),
        Command::Push { segment, offset } =>
            if is_fixed(segment) { push_fixed_block(base_register(segment), offset as nat) }
            else if segment == Segment::Constant { push_constant_block(offset as nat) }
            else if segment == Segment::Static { push_static_block(program, offset as nat) }
            else if segment == Segment::Temp { push_temp_block(offset as nat) }
            else { push_pointer_block(offset as nat) },
        Command::Pop { segment, offset } =>
            if is_fixed(segment) { pop_fixed_block(base_register(segment), offset as nat) }
            else if segment == Segment::Static { pop_static_block(program, offset as nat) }
            else if segment == Segment::Temp { pop_temp_block(offset as nat) }
            else { pop_pointer_block(offset as nat) },
        Command::Label(n) => "("@ + n + ")"@,
        Command::Goto(n) => "@"@ + n + "\n0;JMP"@,
        Command::IfGoto(n) => pop_to_d() + "\n@"@ + n + "\nD;JNE"@,
        Command::Function { name, local_vars } => "("@ + name + ")"@ + zero_locals(local_vars as nat),
        Command::Return => return_block(),
        Command::Ignored => Seq::empty(),
    }
}

/// Whether the emitter can lower `cmd`: nothing is popped into the constant
/// segment, and pointer offsets are 0 or 1.
pub open spec fn lowerable(cmd: Command) -> bool {
    match cmd {
        Command::Push { segment, offset } => segment == Segment::Pointer ==> offset <= 1,
        Command::Pop { segment, offset } => segment != Segment::Constant && (segment == Segment::Pointer ==> offset <= 1),
        _ => true,
    }
}

/// The blocks of the instructions of `cmds` that are not `Ignored`, in order,
/// each numbered by its place among them.
pub open spec fn blocks(program: Seq<char>, cmds: Seq<Command>) -> Seq<Seq<char>>
    decreases cmds.len(),
{
    if cmds.len() == 0 {
        Seq::empty()
    } else {
        let prev = blocks(program, cmds.drop_last());
        if cmds.last() is Ignored {
            prev
        } else {
            prev.push(block(program, cmds.last(), prev.len()))
        }
    }
}

/// The emitted program: the blocks, one newline between each two.
pub open spec fn emit_spec(program: Seq<char>, cmds: Seq<Command>) -> Seq<char> {
    join_with(blocks(program, cmds), "\n"@)
}

pub fn emit_push_d_to_stack() -> (r: &'static str)
    ensures
        r@ == push_d(),
{
    "@SP\nA=M\nM=D\n@SP\nM=M+1"
}

pub fn emit_pop_stack_to_d() -> (r: &'static str)
    ensures
        r@ == pop_to_d(),
{
    "@SP\nM=M-1\nA=M\nD=M"
}

pub fn emit_binary_arithmetic(operation_str: &str) -> (r: String)
    ensures
        r@ == binary_block(operation_str@),
{
    let mut m = String::from_str("@SP\nM=M-1\nA=M\nD=M\n@SP\nM=M-1\nA=M\n");
    m.append(operation_str);
    m.append("\n@SP\nM=M+1");
    m
}

pub fn emit_unary_arithmetic(operation_str: &str) -> (r: String)
    ensures
        r@ == unary_block(operation_str@),
{
    let mut m = String::from_str("@SP\nM=M-1\nA=M\n");
    m.append(operation_str);
    m.append("\n@SP\nM=M+1");
    m
}

pub fn emit_comparison(instruction_index: usize, operation_str: &str) -> (r: String)
    ensures
        r@ == comparison_block(instruction_index as nat, operation_str@),
{
    let mut success = String::from_str(operation_str);
    success.append("_");
    push_decimal(&mut success, instruction_index);
    let mut failure = String::from_str("NOT_");
    failure.append(success.as_str());
    let mut m = String::from_str("D=M-D\n@");
    m.append(success.as_str());
    m.append("\nD;J");
    m.append(operation_str);
    m.append("\n@SP\nA=M\nM=0\n@");
    m.append(failure.as_str());
    m.append("\n0;JMP\n(");
    m.append(success.as_str());
    m.append(")\n@SP\nA=M\nM=-1\n(");
    m.append(failure.as_str());
    m.append(")");
    emit_binary_arithmetic(m.as_str())
}

pub fn emit_push_fixed_segment(base_address: &str, offset: usize) -> (r: String)
    ensures
        r@ == push_fixed_block(base_address@, offset as nat),
{
    let mut m = String::from_str("@");
    m.append(base_address);
    m.append("\nD=M\n@");
    push_decimal(&mut m, offset);
    m.append("\nD=D+A\nA=D\nD=M\n");
    m.append(emit_push_d_to_stack());
    m
}

pub fn emit_pop_fixed_segment(base_address: &str, offset: usize) -> (r: String)
    ensures
        r@ == pop_fixed_block(base_address@, offset as nat),
{
    let mut m = String::from_str("@");
    m.append(base_address);
    m.append("\nD=M\n@");
    push_decimal(&mut m, offset);
    m.append("\nD=D+A\n@SP\nM=M-1\nA=M\nD=D+M\n@SP\nA=M\nA=D-M\nM=D-A");
    m
}

pub fn emit_push_constant_segment(number: usize) -> (r: String)
    ensures
        r@ == push_constant_block(number as nat),
{
    let mut m = String::from_str("@");
    push_decimal(&mut m, number);
    m.append("\nD=A\n");
    m.append(emit_push_d_to_stack());
    m
}

pub fn emit_push_static_segment(file_name: &str, offset: usize) -> (r: String)
    ensures
        r@ == push_static_block(file_name@, offset as nat),
{
    let mut m = String::from_str("@");
    m.append(file_name);
    m.append(".");
    push_decimal(&mut m, offset);
    m.append("\nD=M\n");
    m.append(emit_push_d_to_stack());
    m
}

pub fn emit_pop_static_segment(file_name: &str, offset: usize) -> (r: String)
    ensures
        r@ == pop_static_block(file_name@, offset as nat),
{
    let mut m = String::from_str(emit_pop_stack_to_d());
    m.append("\n@");
    m.append(file_name);
    m.append(".");
    push_decimal(&mut m, offset);
    m.append("\nM=D");
    m
}

pub fn emit_push_temp_segment(offset: usize) -> (r: String)
    ensures
        r@ == push_temp_block(offset as nat),
{
    let mut m = String::from_str("@5\nD=A\n@");
    push_decimal(&mut m, offset);
    m.append("\nD=D+A\nA=D\nD=M\n");
    m.append(emit_push_d_to_stack());
    m
}

pub fn emit_pop_temp_segment(offset: usize) -> (r: String)
    ensures
        r@ == pop_temp_block(offset as nat),
{
    let mut m = String::from_str("@5\nD=A\n@");
    push_decimal(&mut m, offset);
    m.append("\nD=D+A\n@SP\nM=M-1\nA=M\nD=D+M\n@SP\nA=M\nA=D-M\nM=D-A");
    m
}

fn pointer_name(offset: usize) -> (r: &'static str)
    ensures
        r@ == pointer_register(offset as nat),
{
    if offset == 0 { "THIS" } else { "THAT" }
}

pub fn emit_push_pointer_segment(offset: usize) -> (r: String)
    ensures
        r@ == push_pointer_block(offset as nat),
{
    let mut m = String::from_str("@");
    m.append(pointer_name(offset));
    m.append("\nD=M\n");
    m.append(emit_push_d_to_stack());
    m
}

pub fn emit_pop_pointer_segment(offset: usize) -> (r: String)
    ensures
        r@ == pop_pointer_block(offset as nat),
{
    let mut m = String::from_str("@SP\nM=M-1\nA=M\nD=M\n@");
    m.append(pointer_name(offset));
    m.append("\nM=D");
    m
}

pub fn emit_zero_locals(k: usize) -> (r: String)
    ensures
        r@ == zero_locals(k as nat),
{
    let mut m = String::new();
    let mut i: usize = 0;
    while i < k
        invariant
            i <= k,
            m@ == zero_locals(i as nat),
        decreases k - i,
    {
        m.append("\n@SP\nA=M\nM=0\n@SP\nM=M+1");
        i = i + 1;
    }
    m
}

pub fn emit_return() -> (r: &'static str)
    ensures
        r@ == return_block(),
{
    "@LCL\nD=M\n@R13\nM=D\n@5\nA=D-A\nD=M\n@R14\nM=D\n@SP\nAM=M-1\nD=M\n@ARG\nA=M\nM=D\n@ARG\nD=M+1\n@SP\nM=D\n@R13\nAM=M-1\nD=M\n@THAT\nM=D\n@R13\nAM=M-1\nD=M\n@THIS\nM=D\n@R13\nAM=M-1\nD=M\n@ARG\nM=D\n@R13\nAM=M-1\nD=M\n@LCL\nM=D\n@R14\nA=M\n0;JMP"
}

pub fn emit_arithmetic(op: ArithInstruction, index: usize) -> (r: String)
    ensures
        r@ == arith_block(op, index as nat),
{
    match op {
        ArithInstruction::Add => emit_binary_arithmetic("M=M+D"),
        ArithInstruction::Sub => emit_binary_arithmetic("M=M-D"),
        ArithInstruction::Eq => emit_comparison(index, "EQ"),
        ArithInstruction::Gt => emit_comparison(index, "GT"),
        ArithInstruction::Lt => emit_comparison(index, "LT"),
        ArithInstruction::And => emit_binary_arithmetic("M=D&M"),
        ArithInstruction::Or => emit_binary_arithmetic("M=D|M"),
        ArithInstruction::Neg => emit_unary_arithmetic("M=-M"),
        ArithInstruction::Not => emit_unary_arithmetic("M=!M"),
    }
}

pub fn emit_push(program_name: &str, segment: Segment, offset: usize) -> (r: String)
    ensures
        r@ == block(program_name@, Command::Push { segment, offset }, 0),
{
    match segment {
        Segment::Local => emit_push_fixed_segment("LCL", offset),
        Segment::Argument => emit_push_fixed_segment("ARG", offset),
        Segment::This => emit_push_fixed_segment("THIS", offset),
        Segment::That => emit_push_fixed_segment("THAT", offset),
        Segment::Constant => emit_push_constant_segment(offset),
        Segment::Static => emit_push_static_segment(program_name, offset),
        Segment::Temp => emit_push_temp_segment(offset),
        Segment::Pointer => emit_push_pointer_segment(offset),
    }
}

pub fn emit_pop(program_name: &str, segment: Segment, offset: usize) -> (r: String)
    requires
        segment != Segment::Constant,
    ensures
        r@ == block(program_name@, Command::Pop { segment, offset }, 0),
{
    match segment {
        Segment::Local => emit_pop_fixed_segment("LCL", offset),
        Segment::Argument => emit_pop_fixed_segment("ARG", offset),
        Segment::This => emit_pop_fixed_segment("THIS", offset),
        Segment::That => emit_pop_fixed_segment("THAT", offset),
        Segment::Static => emit_pop_static_segment(program_name, offset),
        Segment::Temp => emit_pop_temp_segment(offset),
        _ => emit_pop_pointer_segment(offset),
    }
}

/// The block of one instruction, numbered `index` among the lowered ones.
pub fn emit_instruction(program_name: &str, instruction: &Instruction, index: usize) -> (r: String)
    requires
        lowerable(instruction@),
        !(instruction@ is Ignored),
    ensures
        r@ == block(program_name@, instruction@, index as nat),
{
    match instruction {
        Instruction::Arithmetic(op) => emit_arithmetic(*op, index),
        Instruction::Push { segment, offset } => emit_push(program_name, *segment, *offset),
        Instruction::Pop { segment, offset } => emit_pop(program_name, *segment, *offset),
        Instruction::Label(n) => {
            let mut m = String::from_str("(");
            m.append(n.as_str());
            m.append(")");
            m
        },
        Instruction::Goto(n) => {
            let mut m = String::from_str("@");
            m.append(n.as_str());
            m.append("\n0;JMP");
            m
        },
        Instruction::IfGoto(n) => {
            let mut m = String::from_str(emit_pop_stack_to_d());
            m.append("\n@");
            m.append(n.as_str());
            m.append("\nD;JNE");
            m
        },
        Instruction::Function { name, local_vars } => {
            let mut m = String::from_str("(");
            m.append(name.as_str());
            m.append(")");
            let z = emit_zero_locals(*local_vars);
            m.append(z.as_str());
            m
        },
        Instruction::Return => String::from_str(emit_return()),
        Instruction::Ignored => String::new(),
    }
}

/// Lowers a program, one block per instruction that is not `Ignored`, in
/// order, joined by newlines; comparisons number their jump targets by their
/// block's place.
pub fn emit(program_name: &str, instructions: Vec<Instruction>) -> (r: String)
    requires
        forall|i: int| 0 <= i < instructions@.len() ==> lowerable(#[trigger] instructions@[i]@),
    ensures
        r@ == emit_spec(program_name@, commands_of(instructions@)),
{
    let ghost cmds = commands_of(instructions@);
    let mut out = String::new();
    let mut index: usize = 0;
    let mut i: usize = 0;
    assert(cmds.subrange(0, 0) =~= Seq::<Command>::empty());
    while i < instructions.len()
        invariant
            i <= instructions@.len(),
            cmds == commands_of(instructions@),
            forall|j: int| 0 <= j < instructions@.len() ==> lowerable(#[trigger] instructions@[j]@),
            index <= i,
            index == blocks(program_name@, cmds.subrange(0, i as int)).len(),
            out@ == join_with(blocks(program_name@, cmds.subrange(0, i as int)), "\n"@),
        decreases instructions@.len() - i,
    {
        let ghost prev = blocks(program_name@, cmds.subrange(0, i as int));
        assert(cmds.subrange(0, i + 1).drop_last() =~= cmds.subrange(0, i as int));
        assert(cmds.subrange(0, i + 1).last() == instructions@[i as int]@);
        let ins = &instructions[i];
        let ignored = match ins {
            Instruction::Ignored => true,
            _ => false,
        };
        if !ignored {
            let b = emit_instruction(program_name, ins, index);
            assert(prev.push(b@).drop_last() =~= prev);
            if index > 0 {
                out.append("\n");
            } else {
                assert(out@ =~= Seq::<char>::empty());
            }
            out.append(b.as_str());
            index = index + 1;
        }
        i = i + 1;
    }
    assert(cmds.subrange(0, instructions@.len() as int) =~= cmds);
    out
}

} // verus!
