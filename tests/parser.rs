use vm_compiler::vm_parser::{parse, ArithInstruction, Instruction, Segment};

#[test]
fn test_parser() {
    let source1 = "// Executes pop and push commands using the virtual memory segments.
// Execute arithmetic and logic commands too.
push constant 10 // push
pop local 0 // pop
add
// end of vm program
";
    assert_eq!(
        parse(source1),
        Ok(vec![
            Instruction::Push { segment: Segment::Constant, offset: 10 },
            Instruction::Pop { segment: Segment::Local, offset: 0 },
            Instruction::Arithmetic(ArithInstruction::Add),
        ])
    );
    let source2 = "label UNUSED
goto NORMAL
label NORMAL
if-goto UNDEFINED
";
    assert_eq!(
        parse(source2),
        Err("1| label UNUSED
         ^^^^^^
⚠️ I found an unused label named UNUSED. Try removing it or use it somewhere.

4| if-goto UNDEFINED
           ^^^^^^^^^
⚠️ I found an undefined label named UNDEFINED. Try removing it or define it somewhere."
            .to_string())
    );
}

#[test]
fn duplicate_label_cites_second_declaration() {
    let r = parse("label L\nlabel L\n");
    assert_eq!(
        r,
        Err("2| label L\n         ^\n⚠️ I found a duplicated label name `L`. Try renaming it.".to_string())
    );
}

#[test]
fn duplicate_function_name_is_rejected() {
    let r = parse("function f 0\nlabel f\ngoto f\n").unwrap_err();
    assert!(r.starts_with("2| label f\n"));
    assert!(r.contains("duplicated label name `f`"));
}

#[test]
fn undefined_goto_cites_line_one() {
    let r = parse("goto MISSING\n");
    assert_eq!(
        r,
        Err("1| goto MISSING\n        ^^^^^^^\n⚠️ I found an undefined label named MISSING. Try removing it or define it somewhere."
            .to_string())
    );
}

#[test]
fn pop_constant_is_rejected() {
    let r = parse("pop constant 5\n");
    assert_eq!(
        r,
        Err("1| pop constant 5\n   ^^^^^^^^^^^^^^\n⚠️ You can't store a popped value into a constant.\nTry pushing a constant onto the stack using `push constant 5` or consider push/pop other memory segments like `local` and `argument`."
            .to_string())
    );
}

#[test]
fn push_pointer_two_is_rejected() {
    let r = parse("push pointer 2\n").unwrap_err();
    assert!(r.starts_with("1| push pointer 2\n   ^^^^^^^^^^^^^^\n"));
    assert!(r.contains("I found that 2 is outside the allowed range of pointers."));
    assert!(r.contains("You can only push/pop pointer 0 or 1."));
}

#[test]
fn pop_pointer_large_is_rejected_anywhere() {
    let r = parse("push constant 1\nadd\npop pointer 17 // far\n").unwrap_err();
    assert!(r.starts_with("3| pop pointer 17 // far\n"));
    assert!(r.contains("I found that 17 is outside"));
}

#[test]
fn pointer_zero_and_one_are_accepted() {
    assert_eq!(
        parse("push pointer 0\npop pointer 1\n"),
        Ok(vec![
            Instruction::Push { segment: Segment::Pointer, offset: 0 },
            Instruction::Pop { segment: Segment::Pointer, offset: 1 },
        ])
    );
}

#[test]
fn forward_reference_is_legal() {
    assert_eq!(
        parse("goto END\nlabel END\n"),
        Ok(vec![Instruction::Goto("END".to_string()), Instruction::Label("END".to_string())])
    );
    assert_eq!(
        parse("if-goto LOOP.a$1\nlabel LOOP.a$1\n"),
        Ok(vec![Instruction::IfGoto("LOOP.a$1".to_string()), Instruction::Label("LOOP.a$1".to_string())])
    );
}

#[test]
fn unused_declaration_is_reported() {
    let r = parse("push constant 1\nlabel ALONE\n").unwrap_err();
    assert_eq!(
        r,
        "2| label ALONE\n         ^^^^^\n⚠️ I found an unused label named ALONE. Try removing it or use it somewhere."
    );
}

#[test]
fn every_undefined_usage_is_reported_in_order() {
    let r = parse("goto A\ngoto A\n").unwrap_err();
    assert_eq!(
        r,
        "1| goto A\n        ^\n⚠️ I found an undefined label named A. Try removing it or define it somewhere.\n\n2| goto A\n        ^\n⚠️ I found an undefined label named A. Try removing it or define it somewhere."
    );
}

#[test]
fn all_commands_are_read() {
    let src = "add\nsub\nneg\neq\ngt\nlt\nand\nor\nnot\nfunction Main.main 2\npush argument 1\npush this 2\npush that 3\npush static 4\npush temp 5\npop static 6\npop temp 7\npop this 0\npop that 0\npop argument 0\nreturn\n";
    let v = parse(src).unwrap();
    assert_eq!(v.len(), 21);
    assert_eq!(v[0], Instruction::Arithmetic(ArithInstruction::Add));
    assert_eq!(v[8], Instruction::Arithmetic(ArithInstruction::Not));
    assert_eq!(v[9], Instruction::Function { name: "Main.main".to_string(), local_vars: 2 });
    assert_eq!(v[13], Instruction::Push { segment: Segment::Static, offset: 4 });
    assert_eq!(v[16], Instruction::Pop { segment: Segment::Temp, offset: 7 });
    assert_eq!(v[20], Instruction::Return);
}

#[test]
fn blank_and_comment_lines_are_ignored() {
    assert_eq!(parse(""), Ok(vec![]));
    assert_eq!(parse("\n   \n// only a comment\n\t\n"), Ok(vec![]));
    assert_eq!(
        parse("  push   constant\t7//x\r\n"),
        Ok(vec![Instruction::Push { segment: Segment::Constant, offset: 7 }])
    );
}

#[test]
fn unknown_command_is_a_syntax_error() {
    let r = parse("push constant 1\njump X\n").unwrap_err();
    assert!(r.starts_with("2| jump X\n   ^^^^\n"));
    assert!(r.contains("I can't understand `jump`."));
}

#[test]
fn wrong_operand_count_is_a_syntax_error() {
    let r = parse("push constant\n").unwrap_err();
    assert!(r.starts_with("1| push constant\n   ^^^^^^^^^^^^^\n"));
    assert!(r.contains("I'm expecting a line of the form `push <segment> <index>`."));
    let r = parse("add 1\n").unwrap_err();
    assert!(r.contains("I'm expecting a line of the form `add`."));
}

#[test]
fn unknown_segment_is_rejected() {
    let r = parse("push heap 1\n").unwrap_err();
    assert!(r.starts_with("1| push heap 1\n        ^^^^\n"));
    assert!(r.contains("I found an unknown segment `heap`."));
}

#[test]
fn bad_number_is_rejected() {
    let r = parse("push local x1\n").unwrap_err();
    assert!(r.contains("I'm expecting a whole decimal number but found `x1`."));
    let r = parse("push local 99999999999999999999999\n").unwrap_err();
    assert!(r.contains("but found `99999999999999999999999`."));
}

#[test]
fn bad_label_name_is_rejected() {
    let r = parse("label 1abc\n").unwrap_err();
    assert!(r.starts_with("1| label 1abc\n         ^^^^\n"));
    assert!(r.contains("I'm expecting a label like"));
}

#[test]
fn first_line_error_stops_the_pass() {
    let r = parse("goto NOWHERE\npop constant 1\n").unwrap_err();
    assert!(r.starts_with("2| pop constant 1\n"));
    assert!(!r.contains("NOWHERE"));
}

#[test]
fn unicode_label_names_are_accepted() {
    assert_eq!(
        parse("label é\ngoto é\n"),
        Ok(vec![Instruction::Label("é".to_string()), Instruction::Goto("é".to_string())])
    );
    assert_eq!(
        parse("function Größe.ñ٣ 1\nlabel 名前_1\nif-goto 名前_1\n"),
        Ok(vec![
            Instruction::Function { name: "Größe.ñ٣".to_string(), local_vars: 1 },
            Instruction::Label("名前_1".to_string()),
            Instruction::IfGoto("名前_1".to_string()),
        ])
    );
}

#[test]
fn label_name_must_start_alphabetic() {
    let r = parse("label _x\n").unwrap_err();
    assert!(r.contains("I'm expecting a label like"));
    let r = parse("goto ٣x\n").unwrap_err();
    assert!(r.contains("but found `٣x`."));
}
