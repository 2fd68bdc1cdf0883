use vm_compiler::compile;
use vm_compiler::vm_emitter::{
    emit, emit_binary_arithmetic, emit_pop_stack_to_d, emit_push_constant_segment, emit_push_d_to_stack,
    emit_unary_arithmetic,
};
use vm_compiler::vm_parser::{parse, ArithInstruction, Instruction, Segment};

const PUSH_D: &str = "@SP\nA=M\nM=D\n@SP\nM=M+1";

#[test]
fn push_pop_add_program() {
    let out = compile("Prog", "push constant 10\npop local 0\nadd\n").unwrap();
    let expected = format!(
        "@10\nD=A\n{}\n@LCL\nD=M\n@0\nD=D+A\n@SP\nM=M-1\nA=M\nD=D+M\n@SP\nA=M\nA=D-M\nM=D-A\n@SP\nM=M-1\nA=M\nD=M\n@SP\nM=M-1\nA=M\nM=M+D\n@SP\nM=M+1",
        PUSH_D
    );
    assert_eq!(out, expected);
    assert_eq!(parse("push constant 10\npop local 0\nadd\n").unwrap().len(), 3);
}

#[test]
fn two_comparisons_use_distinct_symbols() {
    let out = compile("P", "eq\neq\n").unwrap();
    assert!(out.contains("@EQ_0\nD;JEQ"));
    assert!(out.contains("(NOT_EQ_0)"));
    assert!(out.contains("(EQ_1)"));
    assert!(out.contains("(NOT_EQ_1)"));
    assert_eq!(out.matches("(EQ_0)").count(), 1);
    assert_eq!(out.matches("(EQ_1)").count(), 1);
}

#[test]
fn comparison_block_is_exact() {
    let out = emit("P", vec![Instruction::Arithmetic(ArithInstruction::Lt)]);
    assert_eq!(
        out,
        "@SP\nM=M-1\nA=M\nD=M\n@SP\nM=M-1\nA=M\nD=M-D\n@LT_0\nD;JLT\n@SP\nA=M\nM=0\n@NOT_LT_0\n0;JMP\n(LT_0)\n@SP\nA=M\nM=-1\n(NOT_LT_0)\n@SP\nM=M+1"
    );
}

#[test]
fn comparison_index_counts_lowered_blocks() {
    let out = emit(
        "P",
        vec![
            Instruction::Arithmetic(ArithInstruction::Add),
            Instruction::Ignored,
            Instruction::Arithmetic(ArithInstruction::Gt),
        ],
    );
    assert!(out.contains("(GT_1)"));
    assert!(out.contains("(NOT_GT_1)"));
}

#[test]
fn compile_is_deterministic() {
    let src = "function Main.f 1\npush argument 0\npush constant 3\nlt\nif-goto Main.f$end\ngoto Main.f$end\nlabel Main.f$end\nreturn\n";
    assert_eq!(compile("Main", src), compile("Main", src));
}

#[test]
fn block_count_matches_instruction_count() {
    let v = vec![
        Instruction::Arithmetic(ArithInstruction::Neg),
        Instruction::Ignored,
        Instruction::Arithmetic(ArithInstruction::Not),
    ];
    assert_eq!(emit("P", v), "@SP\nM=M-1\nA=M\nM=-M\n@SP\nM=M+1\n@SP\nM=M-1\nA=M\nM=!M\n@SP\nM=M+1");
}

#[test]
fn static_segment_uses_program_name() {
    let out = emit(
        "Foo",
        vec![
            Instruction::Push { segment: Segment::Static, offset: 3 },
            Instruction::Pop { segment: Segment::Static, offset: 12 },
        ],
    );
    assert_eq!(out, format!("@Foo.3\nD=M\n{}\n@SP\nM=M-1\nA=M\nD=M\n@Foo.12\nM=D", PUSH_D));
}

#[test]
fn temp_and_pointer_segments() {
    let out = emit(
        "P",
        vec![
            Instruction::Push { segment: Segment::Temp, offset: 6 },
            Instruction::Pop { segment: Segment::Temp, offset: 2 },
            Instruction::Push { segment: Segment::Pointer, offset: 1 },
            Instruction::Pop { segment: Segment::Pointer, offset: 0 },
        ],
    );
    let expected = format!(
        "@5\nD=A\n@6\nD=D+A\nA=D\nD=M\n{}\n@5\nD=A\n@2\nD=D+A\n@SP\nM=M-1\nA=M\nD=D+M\n@SP\nA=M\nA=D-M\nM=D-A\n@THAT\nD=M\n{}\n@SP\nM=M-1\nA=M\nD=M\n@THIS\nM=D",
        PUSH_D, PUSH_D
    );
    assert_eq!(out, expected);
}

#[test]
fn fixed_segments_use_base_registers() {
    let out = emit(
        "P",
        vec![
            Instruction::Push { segment: Segment::Argument, offset: 21 },
            Instruction::Pop { segment: Segment::That, offset: 4 },
        ],
    );
    let expected = format!(
        "@ARG\nD=M\n@21\nD=D+A\nA=D\nD=M\n{}\n@THAT\nD=M\n@4\nD=D+A\n@SP\nM=M-1\nA=M\nD=D+M\n@SP\nA=M\nA=D-M\nM=D-A",
        PUSH_D
    );
    assert_eq!(out, expected);
}

#[test]
fn binary_operations() {
    let out = emit(
        "P",
        vec![
            Instruction::Arithmetic(ArithInstruction::Sub),
            Instruction::Arithmetic(ArithInstruction::And),
            Instruction::Arithmetic(ArithInstruction::Or),
        ],
    );
    assert!(out.contains("A=M\nM=M-D\n@SP"));
    assert!(out.contains("A=M\nM=D&M\n@SP"));
    assert!(out.contains("A=M\nM=D|M\n@SP"));
}

#[test]
fn control_flow_lowering() {
    let out = compile("P", "function F 2\nlabel L\nif-goto L\ngoto L\nreturn\n").unwrap();
    assert!(out.starts_with("(F)\n@SP\nA=M\nM=0\n@SP\nM=M+1\n@SP\nA=M\nM=0\n@SP\nM=M+1\n(L)\n"));
    assert!(out.contains("(L)\n@SP\nM=M-1\nA=M\nD=M\n@L\nD;JNE\n@L\n0;JMP\n@LCL\n"));
    assert!(out.ends_with("@R14\nA=M\n0;JMP"));
}

#[test]
fn compile_passes_diagnostics_through() {
    assert_eq!(compile("P", "goto X\n"), Err(parse("goto X\n").unwrap_err()));
}

#[test]
fn empty_program_compiles_to_empty_text() {
    assert_eq!(compile("P", ""), Ok(String::new()));
    assert_eq!(emit("P", vec![]), "");
}

#[test]
fn templates_in_isolation() {
    assert_eq!(emit_push_d_to_stack(), PUSH_D);
    assert_eq!(emit_pop_stack_to_d(), "@SP\nM=M-1\nA=M\nD=M");
    assert_eq!(emit_push_constant_segment(32767), format!("@32767\nD=A\n{}", PUSH_D));
    assert_eq!(emit_unary_arithmetic("M=-M"), "@SP\nM=M-1\nA=M\nM=-M\n@SP\nM=M+1");
    assert_eq!(
        emit_binary_arithmetic("M=M+D"),
        "@SP\nM=M-1\nA=M\nD=M\n@SP\nM=M-1\nA=M\nM=M+D\n@SP\nM=M+1"
    );
}
