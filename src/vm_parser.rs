//! The VM language: its instructions, the reading of one source line, and
//! the whole-program pass over label declarations and references.
use vstd::prelude::*;
use crate::lexer::{
    code_end, digits_value, find_code_end, find_words, is_label_name, is_number, lemma_code_end_bound,
    lemma_words_bounds, line_words, read_label_name, read_number, word_at, word_is,
};
use crate::text::{push_chars, push_decimal, decimal, split_lines, chars_of, lines_of};
use crate::render::display_error;
use crate::names::{empty_names, has_name, names_in, with_name};
use crate::render::rendered;
use crate::vm_emitter::lowerable;

verus! {

#[derive(Debug, Clone, Copy, PartialEq, Eq, Structural)]
pub enum ArithInstruction {
    Add,
    Sub,
    Neg,
    Eq,
    Gt,
    Lt,
    And,
    Or,
    Not,
}

#[derive(Debug, Clone, Copy, PartialEq, Eq, Structural)]
pub enum Segment {
    Local,
    Argument,
    This,
    That,
    Constant,
    Static,
    Temp,
    Pointer,
}

#[derive(Debug, Clone, PartialEq)]
pub enum Instruction {
    Arithmetic(ArithInstruction),
    Push { segment: Segment, offset: usize },
    Pop { segment: Segment, offset: usize },
    Label(String),
    Goto(String),
    IfGoto(String),
    Function { name: String, local_vars: usize },
    Return,
    Ignored,
}

/// An instruction as a mathematical value, names as character sequences.
pub enum Command {
    Arithmetic(ArithInstruction),
    Push { segment: Segment, offset: usize },
    Pop { segment: Segment, offset: usize },
    Label(Seq<char>),
    Goto(Seq<char>),
    IfGoto(Seq<char>),
    Function { name: Seq<char>, local_vars: usize },
    Return,
    Ignored,
}

impl View for Instruction {
    type V = Command;

    open spec fn view(&self) -> Command {
        match self {
            Instruction::Arithmetic(op) => Command::Arithmetic(*op),
            Instruction::Push { segment, offset } => Command::Push { segment: *segment, offset: *offset },
            Instruction::Pop { segment, offset } => Command::Pop { segment: *segment, offset: *offset },
            Instruction::Label(n) => Command::Label(n@),
            Instruction::Goto(n) => Command::Goto(n@),
            Instruction::IfGoto(n) => Command::IfGoto(n@),
            Instruction::Function { name, local_vars } => Command::Function { name: name@, local_vars: *local_vars },
            Instruction::Return => Command::Return,
            Instruction::Ignored => Command::Ignored,
        }
    }
}

/// The views of a sequence of instructions.
pub open spec fn commands_of(v: Seq<Instruction>) -> Seq<Command> {
    v.map_values(|i: Instruction| i@)
}

pub open spec fn segment_of(w: Seq<char>) -> Option<Segment> {
    if w == "local"@ { Some(Segment::Local) }
    else if w == "argument"@ { Some(Segment::Argument) }
    else if w == "this"@ { Some(Segment::This) }
    else if w == "that"@ { Some(Segment::That) }
    else if w == "constant"@ { Some(Segment::Constant) }
    else if w == "static"@ { Some(Segment::Static) }
    else if w == "temp"@ { Some(Segment::Temp) }
    else if w == "pointer"@ { Some(Segment::Pointer) }
    else { None }
}

pub open spec fn arith_of(w: Seq<char>) -> Option<ArithInstruction> {
    if w == "add"@ { Some(ArithInstruction::Add) }
    else if w == "sub"@ { Some(ArithInstruction::Sub) }
    else if w == "neg"@ { Some(ArithInstruction::Neg) }
    else if w == "eq"@ { Some(ArithInstruction::Eq) }
    else if w == "gt"@ { Some(ArithInstruction::Gt) }
    else if w == "lt"@ { Some(ArithInstruction::Lt) }
    else if w == "and"@ { Some(ArithInstruction::And) }
    else if w == "or"@ { Some(ArithInstruction::Or) }
    else if w == "not"@ { Some(ArithInstruction::Not) }
    else { None }
}

pub open spec fn form_msg(usage: Seq<char>) -> Seq<char> {
    "I'm expecting a line of the form `"@ + usage + "`."@
}

pub open spec fn unknown_msg(w: Seq<char>) -> Seq<char> {
    "I can't understand `"@ + w
        + "`. A line holds one of push, pop, add, sub, neg, eq, gt, lt, and, or, not, label, goto, if-goto, function or return."@
}

pub open spec fn segment_msg(w: Seq<char>) -> Seq<char> {
    "I found an unknown segment `"@ + w
        + "`. Try local, argument, this, that, constant, static, temp or pointer."@
}

pub open spec fn number_msg(w: Seq<char>) -> Seq<char> {
    "I'm expecting a whole decimal number but found `"@ + w + "`."@
}

pub open spec fn name_msg(w: Seq<char>) -> Seq<char> {
    "I'm expecting a label like `LOOP_ONE` or `ponggame.run$if_end1` but found `"@ + w + "`."@
}

pub open spec fn constant_msg(n: usize) -> Seq<char> {
    "You can't store a popped value into a constant.\nTry pushing a constant onto the stack using `push constant "@
        + decimal(n as nat)
        + "` or consider push/pop other memory segments like `local` and `argument`."@
}

pub open spec fn pointer_msg(n: usize) -> Seq<char> {
    "I found that "@ + decimal(n as nat)
        + " is outside the allowed range of pointers.\nYou can only push/pop pointer 0 or 1. Pointer 0 refers to `this` and pointer 1 refers to `that`."@
}

pub open spec fn duplicate_msg(name: Seq<char>) -> Seq<char> {
    "I found a duplicated label name `"@ + name + "`. Try renaming it."@
}

pub open spec fn unused_msg(name: Seq<char>) -> Seq<char> {
    "I found an unused label named "@ + name + ". Try removing it or use it somewhere."@
}

pub open spec fn undefined_msg(name: Seq<char>) -> Seq<char> {
    "I found an undefined label named "@ + name + ". Try removing it or define it somewhere."@
}

/// What one source line reads as: an instruction, with the range of the label
/// name it declares or references (where it has one), or an error message with
/// the range of characters it is about.
pub enum LineOutcome {
    Parsed { cmd: Command, name: (usize, usize) },
    Failed { message: Seq<char>, span: (usize, usize) },
}

/// The reading of a push or pop line whose words are `ws`.
pub open spec fn parse_push_pop(line: Seq<char>, ws: Seq<(usize, usize)>, is_push: bool) -> LineOutcome {
    let whole = (ws[0].0, ws.last().1);
    if ws.len() != 3 {
        LineOutcome::Failed {
            message: form_msg(if is_push { "push <segment> <index>"@ } else { "pop <segment> <index>"@ }),
            span: whole,
        }
    } else {
        match segment_of(word_at(line, ws[1])) {
            None => LineOutcome::Failed { message: segment_msg(word_at(line, ws[1])), span: ws[1] },
            Some(seg) => if !is_number(word_at(line, ws[2])) {
                LineOutcome::Failed { message: number_msg(word_at(line, ws[2])), span: ws[2] }
            } else {
                let n = digits_value(word_at(line, ws[2])) as usize;
                if !is_push && seg == Segment::Constant {
                    LineOutcome::Failed { message: constant_msg(n), span: whole }
                } else if seg == Segment::Pointer && n > 1 {
                    LineOutcome::Failed { message: pointer_msg(n), span: whole }
                } else if is_push {
                    LineOutcome::Parsed { cmd: Command::Push { segment: seg, offset: n }, name: (0, 0) }
                } else {
                    LineOutcome::Parsed { cmd: Command::Pop { segment: seg, offset: n }, name: (0, 0) }
                }
            },
        }
    }
}

/// The reading of a `label`, `goto` or `if-goto` line whose words are `ws`.
pub open spec fn parse_jump(line: Seq<char>, ws: Seq<(usize, usize)>, kind: nat) -> LineOutcome {
    if ws.len() != 2 {
        LineOutcome::Failed {
            message: form_msg(
                if kind == 0 { "label <name>"@ } else if kind == 1 { "goto <name>"@ } else { "if-goto <name>"@ },
            ),
            span: (ws[0].0, ws.last().1),
        }
    } else if !is_label_name(word_at(line, ws[1])) {
        LineOutcome::Failed { message: name_msg(word_at(line, ws[1])), span: ws[1] }
    } else {
        let n = word_at(line, ws[1]);
        LineOutcome::Parsed {
            cmd: if kind == 0 { Command::Label(n) } else if kind == 1 { Command::Goto(n) } else { Command::IfGoto(n) },
            name: ws[1],
        }
    }
}

/// The reading of a `function` line whose words are `ws`.
pub open spec fn parse_function(line: Seq<char>, ws: Seq<(usize, usize)>) -> LineOutcome {
    if ws.len() != 3 {
        LineOutcome::Failed { message: form_msg("function <name> <local count>"@), span: (ws[0].0, ws.last().1) }
    } else if !is_label_name(word_at(line, ws[1])) {
        LineOutcome::Failed { message: name_msg(word_at(line, ws[1])), span: ws[1] }
    } else if !is_number(word_at(line, ws[2])) {
        LineOutcome::Failed { message: number_msg(word_at(line, ws[2])), span: ws[2] }
    } else {
        LineOutcome::Parsed {
            cmd: Command::Function {
                name: word_at(line, ws[1]),
                local_vars: digits_value(word_at(line, ws[2])) as usize,
            },
            name: ws[1],
        }
    }
}

/// The reading of one source line (without its newline).
pub open spec fn parse_line(line: Seq<char>) -> LineOutcome {
    let ws = line_words(line);
    if ws.len() == 0 {
        LineOutcome::Parsed { cmd: Command::Ignored, name: (0, 0) }
    } else {
        let head = word_at(line, ws[0]);
        if head == "push"@ {
            parse_push_pop(line, ws, true)
        } else if head == "pop"@ {
            parse_push_pop(line, ws, false)
        } else if arith_of(head) is Some {
            if ws.len() != 1 {
                LineOutcome::Failed { message: form_msg(head), span: (ws[0].0, ws.last().1) }
            } else {
                LineOutcome::Parsed { cmd: Command::Arithmetic(arith_of(head)->0), name: (0, 0) }
            }
        } else if head == "label"@ {
            parse_jump(line, ws, 0)
        } else if head == "goto"@ {
            parse_jump(line, ws, 1)
        } else if head == "if-goto"@ {
            parse_jump(line, ws, 2)
        } else if head == "function"@ {
            parse_function(line, ws)
        } else if head == "return"@ {
            if ws.len() != 1 {
                LineOutcome::Failed { message: form_msg(head), span: (ws[0].0, ws.last().1) }
            } else {
                LineOutcome::Parsed { cmd: Command::Return, name: (0, 0) }
            }
        } else {
            LineOutcome::Failed { message: unknown_msg(head), span: ws[0] }
        }
    }
}

/// `pre`, then `line[s..e]`, then `post`.
fn message_around(pre: &str, line: &Vec<char>, s: usize, e: usize, post: &str) -> (r: String)
    requires
        s <= e <= line@.len(),
    ensures
        r@ == pre@ + line@.subrange(s as int, e as int) + post@,
{
    let mut m = String::new();
    m.append(pre);
    push_chars(&mut m, line, s, e);
    m.append(post);
    assert(Seq::<char>::empty() + pre@ =~= pre@);
    m
}

/// `pre`, then the decimal rendering of `n`, then `post`.
fn message_number(pre: &str, n: usize, post: &str) -> (r: String)
    ensures
        r@ == pre@ + decimal(n as nat) + post@,
{
    let mut m = String::new();
    m.append(pre);
    push_decimal(&mut m, n);
    m.append(post);
    assert(Seq::<char>::empty() + pre@ =~= pre@);
    m
}

fn form_message(usage: &str) -> (r: String)
    ensures
        r@ == form_msg(usage@),
{
    let mut m = String::new();
    m.append("I'm expecting a line of the form `");
    m.append(usage);
    m.append("`.");
    assert(Seq::<char>::empty() + "I'm expecting a line of the form `"@ =~= "I'm expecting a line of the form `"@);
    m
}

/// The error for a line that does not have the form of its command.
fn form_failure(line: &Vec<char>, ws: &Vec<(usize, usize)>, usage: &str) -> (r: Result<(Instruction, usize, usize), (String, usize, usize)>)
    requires
        ws@.len() > 0,
    ensures
        r matches Err((m, s, e)) && m@ == form_msg(usage@) && s == ws@[0].0 && e == ws@.last().1,
{
    Err((form_message(usage), ws[0].0, ws[ws.len() - 1].1))
}

/// The segment named by `line[s..e]`, if any.
fn read_segment(line: &Vec<char>, s: usize, e: usize) -> (r: Option<Segment>)
    requires
        s <= e <= line@.len(),
    ensures
        r == segment_of(line@.subrange(s as int, e as int)),
{
    if word_is(line, s, e, "local") { Some(Segment::Local) }
    else if word_is(line, s, e, "argument") { Some(Segment::Argument) }
    else if word_is(line, s, e, "this") { Some(Segment::This) }
    else if word_is(line, s, e, "that") { Some(Segment::That) }
    else if word_is(line, s, e, "constant") { Some(Segment::Constant) }
    else if word_is(line, s, e, "static") { Some(Segment::Static) }
    else if word_is(line, s, e, "temp") { Some(Segment::Temp) }
    else if word_is(line, s, e, "pointer") { Some(Segment::Pointer) }
    else { None }
}

/// The arithmetic or logical operation named by `line[s..e]`, if any.
fn read_arith(line: &Vec<char>, s: usize, e: usize) -> (r: Option<ArithInstruction>)
    requires
        s <= e <= line@.len(),
    ensures
        r == arith_of(line@.subrange(s as int, e as int)),
{
    if word_is(line, s, e, "add") { Some(ArithInstruction::Add) }
    else if word_is(line, s, e, "sub") { Some(ArithInstruction::Sub) }
    else if word_is(line, s, e, "neg") { Some(ArithInstruction::Neg) }
    else if word_is(line, s, e, "eq") { Some(ArithInstruction::Eq) }
    else if word_is(line, s, e, "gt") { Some(ArithInstruction::Gt) }
    else if word_is(line, s, e, "lt") { Some(ArithInstruction::Lt) }
    else if word_is(line, s, e, "and") { Some(ArithInstruction::And) }
    else if word_is(line, s, e, "or") { Some(ArithInstruction::Or) }
    else if word_is(line, s, e, "not") { Some(ArithInstruction::Not) }
    else { None }
}

/// The characters `line[s..e]` as a string.
fn name_string(line: &Vec<char>, s: usize, e: usize) -> (r: String)
    requires
        s <= e <= line@.len(),
    ensures
        r@ == line@.subrange(s as int, e as int),
{
    let mut m = String::new();
    push_chars(&mut m, line, s, e);
    assert(Seq::<char>::empty() + line@.subrange(s as int, e as int) =~= line@.subrange(s as int, e as int));
    m
}

/// Whether every word of `ws` lies within `line`.
pub open spec fn words_within(line: Seq<char>, ws: Seq<(usize, usize)>) -> bool {
    forall|j: int| #![trigger ws[j]] 0 <= j < ws.len() ==> ws[j].0 < ws[j].1 <= line.len()
}

/// Whether `r` is the reading of `line`.
pub open spec fn line_result_matches(line: Seq<char>, r: Result<(Instruction, usize, usize), (String, usize, usize)>) -> bool {
    match r {
        Ok((i, s, e)) => parse_line(line) == (LineOutcome::Parsed { cmd: i@, name: (s, e) }),
        Err((m, s, e)) => parse_line(line) == (LineOutcome::Failed { message: m@, span: (s, e) }),
    }
}

fn read_push_pop(line: &Vec<char>, ws: &Vec<(usize, usize)>, is_push: bool) -> (r: Result<(Instruction, usize, usize), (String, usize, usize)>)
    requires
        ws@.len() > 0,
        words_within(line@, ws@),
    ensures
        match r {
            Ok((i, s, e)) => parse_push_pop(line@, ws@, is_push) == (LineOutcome::Parsed { cmd: i@, name: (s, e) }),
            Err((m, s, e)) => parse_push_pop(line@, ws@, is_push) == (LineOutcome::Failed { message: m@, span: (s, e) }),
        },
{
    if ws.len() != 3 {
        return if is_push {
            form_failure(line, ws, "push <segment> <index>")
        } else {
            form_failure(line, ws, "pop <segment> <index>")
        };
    }
    let (s1, e1) = ws[1];
    let (s2, e2) = ws[2];
    assert(ws@[1].0 < ws@[1].1 <= line@.len());
    assert(ws@[2].0 < ws@[2].1 <= line@.len());
    let seg = match read_segment(line, s1, e1) {
        None => {
            return Err((
                message_around("I found an unknown segment `", line, s1, e1,
                    "`. Try local, argument, this, that, constant, static, temp or pointer."),
                s1,
                e1,
            ));
        },
        Some(seg) => seg,
    };
    let n = match read_number(line, s2, e2) {
        None => {
            return Err((message_around("I'm expecting a whole decimal number but found `", line, s2, e2, "`."), s2, e2));
        },
        Some(n) => n,
    };
    let whole_s = ws[0].0;
    let whole_e = ws[2].1;
    if !is_push && seg == Segment::Constant {
        return Err((
            message_number(
                "You can't store a popped value into a constant.\nTry pushing a constant onto the stack using `push constant ",
                n,
                "` or consider push/pop other memory segments like `local` and `argument`.",
            ),
            whole_s,
            whole_e,
        ));
    }
    if seg == Segment::Pointer && n > 1 {
        return Err((
            message_number(
                "I found that ",
                n,
                " is outside the allowed range of pointers.\nYou can only push/pop pointer 0 or 1. Pointer 0 refers to `this` and pointer 1 refers to `that`.",
            ),
            whole_s,
            whole_e,
        ));
    }
    if is_push {
        Ok((Instruction::Push { segment: seg, offset: n }, 0, 0))
    } else {
        Ok((Instruction::Pop { segment: seg, offset: n }, 0, 0))
    }
}

fn read_jump(line: &Vec<char>, ws: &Vec<(usize, usize)>, kind: usize) -> (r: Result<(Instruction, usize, usize), (String, usize, usize)>)
    requires
        ws@.len() > 0,
        kind <= 2,
        words_within(line@, ws@),
    ensures
        match r {
            Ok((i, s, e)) => parse_jump(line@, ws@, kind as nat) == (LineOutcome::Parsed { cmd: i@, name: (s, e) }),
            Err((m, s, e)) => parse_jump(line@, ws@, kind as nat) == (LineOutcome::Failed { message: m@, span: (s, e) }),
        },
{
    if ws.len() != 2 {
        return if kind == 0 {
            form_failure(line, ws, "label <name>")
        } else if kind == 1 {
            form_failure(line, ws, "goto <name>")
        } else {
            form_failure(line, ws, "if-goto <name>")
        };
    }
    let (s1, e1) = ws[1];
    assert(ws@[1].0 < ws@[1].1 <= line@.len());
    if !read_label_name(line, s1, e1) {
        return Err((
            message_around("I'm expecting a label like `LOOP_ONE` or `ponggame.run$if_end1` but found `", line, s1, e1, "`."),
            s1,
            e1,
        ));
    }
    let n = name_string(line, s1, e1);
    let i = if kind == 0 {
        Instruction::Label(n)
    } else if kind == 1 {
        Instruction::Goto(n)
    } else {
        Instruction::IfGoto(n)
    };
    Ok((i, s1, e1))
}

fn read_function(line: &Vec<char>, ws: &Vec<(usize, usize)>) -> (r: Result<(Instruction, usize, usize), (String, usize, usize)>)
    requires
        ws@.len() > 0,
        words_within(line@, ws@),
    ensures
        match r {
            Ok((i, s, e)) => parse_function(line@, ws@) == (LineOutcome::Parsed { cmd: i@, name: (s, e) }),
            Err((m, s, e)) => parse_function(line@, ws@) == (LineOutcome::Failed { message: m@, span: (s, e) }),
        },
{
    if ws.len() != 3 {
        return form_failure(line, ws, "function <name> <local count>");
    }
    let (s1, e1) = ws[1];
    let (s2, e2) = ws[2];
    assert(ws@[1].0 < ws@[1].1 <= line@.len());
    assert(ws@[2].0 < ws@[2].1 <= line@.len());
    if !read_label_name(line, s1, e1) {
        return Err((
            message_around("I'm expecting a label like `LOOP_ONE` or `ponggame.run$if_end1` but found `", line, s1, e1, "`."),
            s1,
            e1,
        ));
    }
    let n = match read_number(line, s2, e2) {
        None => {
            return Err((message_around("I'm expecting a whole decimal number but found `", line, s2, e2, "`."), s2, e2));
        },
        Some(n) => n,
    };
    Ok((Instruction::Function { name: name_string(line, s1, e1), local_vars: n }, s1, e1))
}

/// Reads one source line (without its newline).
pub fn read_line(line: &Vec<char>) -> (r: Result<(Instruction, usize, usize), (String, usize, usize)>)
    ensures
        line_result_matches(line@, r),
{
    let end = find_code_end(line);
    proof {
        lemma_code_end_bound(line@);
        lemma_words_bounds(line@, end as nat);
    }
    let ws = find_words(line, end);
    assert(words_within(line@, ws@));
    if ws.len() == 0 {
        return Ok((Instruction::Ignored, 0, 0));
    }
    let (s0, e0) = ws[0];
    assert(ws@[0].0 < ws@[0].1 <= line@.len());
    if word_is(line, s0, e0, "push") {
        read_push_pop(line, &ws, true)
    } else if word_is(line, s0, e0, "pop") {
        read_push_pop(line, &ws, false)
    } else if let Some(op) = read_arith(line, s0, e0) {
        if ws.len() != 1 {
            Err((message_around("I'm expecting a line of the form `", line, s0, e0, "`."), s0, ws[ws.len() - 1].1))
        } else {
            Ok((Instruction::Arithmetic(op), 0, 0))
        }
    } else if word_is(line, s0, e0, "label") {
        read_jump(line, &ws, 0)
    } else if word_is(line, s0, e0, "goto") {
        read_jump(line, &ws, 1)
    } else if word_is(line, s0, e0, "if-goto") {
        read_jump(line, &ws, 2)
    } else if word_is(line, s0, e0, "function") {
        read_function(line, &ws)
    } else if word_is(line, s0, e0, "return") {
        if ws.len() != 1 {
            Err((message_around("I'm expecting a line of the form `", line, s0, e0, "`."), s0, ws[ws.len() - 1].1))
        } else {
            Ok((Instruction::Return, 0, 0))
        }
    } else {
        Err((
            message_around("I can't understand `", line, s0, e0,
                "`. A line holds one of push, pop, add, sub, neg, eq, gt, lt, and, or, not, label, goto, if-goto, function or return."),
            s0,
            e0,
        ))
    }
}

/// One occurrence of a label name: where it stands (row and columns from one,
/// `to` just past the name), whether it declares the name or refers to it,
/// and whether it is a function's declaration.
pub struct Occurrence {
    pub name: Seq<char>,
    pub row: nat,
    pub from: nat,
    pub to: nat,
    pub declared: bool,
    pub function: bool,
}

/// The column, counted from one, of the character at index `i`.
pub open spec fn col(i: usize) -> nat {
    (i + 1) as nat
}

/// The names that `occs` declares.
pub open spec fn declared_names(occs: Seq<Occurrence>) -> Set<Seq<char>>
    decreases occs.len(),
{
    if occs.len() == 0 {
        Set::empty()
    } else if occs.last().declared {
        declared_names(occs.drop_last()).insert(occs.last().name)
    } else {
        declared_names(occs.drop_last())
    }
}

/// The names that `occs` refers to.
pub open spec fn used_names(occs: Seq<Occurrence>) -> Set<Seq<char>>
    decreases occs.len(),
{
    if occs.len() == 0 {
        Set::empty()
    } else if !occs.last().declared {
        used_names(occs.drop_last()).insert(occs.last().name)
    } else {
        used_names(occs.drop_last())
    }
}

/// The state of the pass over the lines: the instructions read so far and the
/// label occurrences met; or the first line error, with its place.
pub enum ScanOutcome {
    Done { cmds: Seq<Command>, occs: Seq<Occurrence> },
    Stopped { message: Seq<char>, row: nat, from: nat, to: nat },
}

/// The step of the pass for a label or function declaration of `name`.
pub open spec fn declare(cmd: Command, name: Seq<char>, row: nat, span: (usize, usize), cmds: Seq<Command>, occs: Seq<Occurrence>, function: bool) -> ScanOutcome {
    if declared_names(occs).contains(name) {
        ScanOutcome::Stopped { message: duplicate_msg(name), row, from: col(span.0), to: col(span.1) }
    } else {
        ScanOutcome::Done {
            cmds: cmds.push(cmd),
            occs: occs.push(Occurrence { name, row, from: col(span.0), to: col(span.1), declared: true, function }),
        }
    }
}

/// The step of the pass for line number `row`.
pub open spec fn scan_step(line: Seq<char>, row: nat, cmds: Seq<Command>, occs: Seq<Occurrence>) -> ScanOutcome {
    match parse_line(line) {
        LineOutcome::Failed { message, span } => ScanOutcome::Stopped { message, row, from: col(span.0), to: col(span.1) },
        LineOutcome::Parsed { cmd, name: span } => match cmd {
            Command::Label(n) => declare(cmd, n, row, span, cmds, occs, false),
            Command::Function { name: n, .. } => declare(cmd, n, row, span, cmds, occs, true),
            Command::Goto(n) => ScanOutcome::Done {
                cmds: cmds.push(cmd),
                occs: occs.push(Occurrence { name: n, row, from: col(span.0), to: col(span.1), declared: false, function: false }),
            },
            Command::IfGoto(n) => ScanOutcome::Done {
                cmds: cmds.push(cmd),
                occs: occs.push(Occurrence { name: n, row, from: col(span.0), to: col(span.1), declared: false, function: false }),
            },
            Command::Ignored => ScanOutcome::Done { cmds, occs },
            _ => ScanOutcome::Done { cmds: cmds.push(cmd), occs },
        },
    }
}

/// The pass over the first `k` lines.
pub open spec fn scan(ls: Seq<Seq<char>>, k: nat) -> ScanOutcome
    decreases k,
{
    if k == 0 {
        ScanOutcome::Done { cmds: Seq::empty(), occs: Seq::empty() }
    } else {
        match scan(ls, (k - 1) as nat) {
            ScanOutcome::Done { cmds, occs } => scan_step(ls[k - 1], k, cmds, occs),
            stopped => stopped,
        }
    }
}

/// Whether an occurrence is reported after the pass: a label declaration that
/// nothing refers to, or a reference to a name that nothing declares.
pub open spec fn is_flagged(o: Occurrence, occs: Seq<Occurrence>) -> bool {
    if o.declared {
        !o.function && !used_names(occs).contains(o.name)
    } else {
        !declared_names(occs).contains(o.name)
    }
}

/// The occurrences of `occs` that are reported against the whole program's
/// occurrences `all`, in source order.
pub open spec fn flagged_among(occs: Seq<Occurrence>, all: Seq<Occurrence>) -> Seq<Occurrence>
    decreases occs.len(),
{
    if occs.len() == 0 {
        Seq::empty()
    } else {
        let prev = flagged_among(occs.drop_last(), all);
        if is_flagged(occs.last(), all) {
            prev.push(occs.last())
        } else {
            prev
        }
    }
}

/// The occurrences of a program that are reported, in source order.
pub open spec fn flagged(occs: Seq<Occurrence>) -> Seq<Occurrence> {
    flagged_among(occs, occs)
}

/// The rendered diagnostic for a reported occurrence.
pub open spec fn occurrence_text(source: Seq<char>, o: Occurrence) -> Seq<char> {
    rendered(
        source,
        if o.declared { unused_msg(o.name) } else { undefined_msg(o.name) },
        o.row,
        o.from,
        o.to,
    )
}

/// The diagnostics of the reported occurrences `bad`, a blank line between each two.
pub open spec fn report(source: Seq<char>, bad: Seq<Occurrence>) -> Seq<char>
    decreases bad.len(),
{
    if bad.len() == 0 {
        Seq::empty()
    } else if bad.len() == 1 {
        occurrence_text(source, bad[0])
    } else {
        report(source, bad.drop_last()) + "\n\n"@ + occurrence_text(source, bad.last())
    }
}

/// What `parse` returns for `source`: the instructions of its lines, with
/// blank and comment lines left out; or the first line error, rendered; or,
/// where the label pass flags occurrences, their diagnostics joined by a blank line.
pub open spec fn parse_spec(source: Seq<char>) -> Result<Seq<Command>, Seq<char>> {
    let ls = split_lines(source);
    match scan(ls, ls.len()) {
        ScanOutcome::Stopped { message, row, from, to } => Err(rendered(source, message, row, from, to)),
        ScanOutcome::Done { cmds, occs } => {
            let bad = flagged(occs);
            if bad.len() == 0 {
                Ok(cmds)
            } else {
                Err(report(source, bad))
            }
        },
    }
}

/// The ranges that a line's reading reports lie within the line.
pub proof fn lemma_line_spans(line: Seq<char>)
    requires
        line.len() <= usize::MAX,
    ensures
        parse_line(line) matches LineOutcome::Failed { span, .. } ==> span.0 < span.1 <= line.len(),
        parse_line(line) matches LineOutcome::Parsed { cmd, name } ==> (
            cmd is Label || cmd is Goto || cmd is IfGoto || cmd is Function ==> name.0 < name.1 <= line.len()
        ),
{
    lemma_code_end_bound(line);
    let ws = line_words(line);
    lemma_words_bounds(line, code_end(line));
    if ws.len() > 0 {
        assert(ws[0].0 < ws[0].1 <= line.len());
        assert(ws.last().0 < ws.last().1 <= line.len());
        assert(ws[0].0 <= ws.last().0);
        if ws.len() > 1 {
            assert(ws[1].0 < ws[1].1 <= line.len());
        }
        if ws.len() > 2 {
            assert(ws[2].0 < ws[2].1 <= line.len());
        }
    }
}

/// `pre`, then `mid`, then `post`.
fn message_with(pre: &str, mid: &str, post: &str) -> (r: String)
    ensures
        r@ == pre@ + mid@ + post@,
{
    let mut m = String::new();
    m.append(pre);
    m.append(mid);
    m.append(post);
    assert(Seq::<char>::empty() + pre@ =~= pre@);
    m
}

/// A label occurrence as the pass records it.
pub struct LabelOccurrence {
    pub name: String,
    pub row: usize,
    pub from: usize,
    pub to: usize,
    pub declared: bool,
    pub function: bool,
}

impl View for LabelOccurrence {
    type V = Occurrence;

    open spec fn view(&self) -> Occurrence {
        Occurrence {
            name: self.name@,
            row: self.row as nat,
            from: self.from as nat,
            to: self.to as nat,
            declared: self.declared,
            function: self.function,
        }
    }
}

/// The validation context of one pass over a program: the names declared and
/// referred to so far, and every occurrence in source order.
pub struct State {
    defined_labels: im::HashSet<String>,
    used_labels: im::HashSet<String>,
    occurrences: Vec<LabelOccurrence>,
}

impl State {
    /// The occurrences recorded so far.
    pub closed spec fn occs(&self) -> Seq<Occurrence> {
        self.occurrences@.map_values(|o: LabelOccurrence| o@)
    }

    /// The two name sets are those of the recorded occurrences.
    pub closed spec fn wf(&self) -> bool {
        &&& names_in(self.defined_labels) == declared_names(self.occs())
        &&& names_in(self.used_labels) == used_names(self.occs())
    }

    /// An empty context.
    pub fn new() -> (r: State)
        ensures
            r.wf(),
            r.occs() == Seq::<Occurrence>::empty(),
    {
        let r = State { defined_labels: empty_names(), used_labels: empty_names(), occurrences: Vec::new() };
        assert(r.occs() =~= Seq::<Occurrence>::empty());
        r
    }

    /// Records one more occurrence.
    pub fn record(&mut self, o: LabelOccurrence)
        requires
            old(self).wf(),
        ensures
            final(self).wf(),
            final(self).occs() == old(self).occs().push(o@),
    {
        let ghost before = self.occs();
        if o.declared {
            self.defined_labels = with_name(&self.defined_labels, o.name.clone());
        } else {
            self.used_labels = with_name(&self.used_labels, o.name.clone());
        }
        self.occurrences.push(o);
        assert(self.occs() =~= before.push(o@));
        assert(self.occs().drop_last() =~= before);
    }

    /// Whether `name` was declared.
    pub fn declares(&self, name: &str) -> (r: bool)
        requires
            self.wf(),
        ensures
            r == declared_names(self.occs()).contains(name@),
    {
        has_name(&self.defined_labels, name)
    }

    /// Whether `name` was referred to.
    pub fn uses(&self, name: &str) -> (r: bool)
        requires
            self.wf(),
        ensures
            r == used_names(self.occs()).contains(name@),
    {
        has_name(&self.used_labels, name)
    }

    /// The number of recorded occurrences.
    pub fn len(&self) -> (r: usize)
        ensures
            r == self.occs().len(),
    {
        self.occurrences.len()
    }

    /// The occurrence at `i`.
    pub fn occurrence(&self, i: usize) -> (r: &LabelOccurrence)
        requires
            i < self.occs().len(),
        ensures
            r@ == self.occs()[i as int],
    {
        &self.occurrences[i]
    }
}

/// Every occurrence names a line of `ls` and a non-empty range of columns within it.
pub open spec fn occs_within(ls: Seq<Seq<char>>, occs: Seq<Occurrence>) -> bool {
    forall|i: int| #![trigger occs[i]] 0 <= i < occs.len() ==> {
        &&& 1 <= occs[i].row <= ls.len()
        &&& 1 <= occs[i].from < occs[i].to <= ls[occs[i].row - 1].len() + 1
    }
}

/// A line of a text is no longer than the text.
pub proof fn lemma_line_length(s: Seq<char>, k: int)
    requires
        0 <= k < split_lines(s).len(),
    ensures
        split_lines(s)[k].len() <= s.len(),
    decreases s.len(),
{
    if s.len() > 0 {
        let prev = split_lines(s.drop_last());
        crate::text::lemma_split_lines_nonempty(s.drop_last());
        if k < prev.len() {
            lemma_line_length(s.drop_last(), k);
            assert(prev[k].len() <= s.len() - 1);
        }
        if k == prev.len() - 1 {
            lemma_line_length(s.drop_last(), prev.len() - 1);
        }
    }
}

/// Every instruction that the pass keeps can be lowered, and none is `Ignored`.
pub proof fn lemma_scan_lowerable(ls: Seq<Seq<char>>, k: nat)
    ensures
        scan(ls, k) matches ScanOutcome::Done { cmds, .. } ==> forall|i: int| #![trigger cmds[i]]
            0 <= i < cmds.len() ==> lowerable(cmds[i]) && !(cmds[i] is Ignored),
    decreases k,
{
    if k > 0 {
        lemma_scan_lowerable(ls, (k - 1) as nat);
    }
}

/// Once the pass has stopped at a line, it stays stopped there.
pub proof fn lemma_scan_stays_stopped(ls: Seq<Seq<char>>, k: nat, n: nat)
    requires
        k <= n,
        scan(ls, k) is Stopped,
    ensures
        scan(ls, n) == scan(ls, k),
    decreases n,
{
    if n > k {
        lemma_scan_stays_stopped(ls, k, (n - 1) as nat);
    }
}

/// Whether `r` is what `parse` returns for `source`.
pub open spec fn parse_matches(source: Seq<char>, r: Result<Vec<Instruction>, String>) -> bool {
    match r {
        Ok(v) => parse_spec(source) == Ok::<Seq<Command>, Seq<char>>(commands_of(v@)),
        Err(e) => parse_spec(source) == Err::<Seq<Command>, Seq<char>>(e@),
    }
}

/// Reads a whole program: each line is read in turn, stopping at the first
/// malformed or invalid line; then every declaration that nothing refers to
/// and every reference to a name that nothing declares is reported.
pub fn parse(source: &str) -> (r: Result<Vec<Instruction>, String>)
    requires
        source@.len() <= isize::MAX,
    ensures
        parse_matches(source@, r),
{
    let chars = chars_of(source);
    let lines = lines_of(&chars);
    let ghost ls = split_lines(source@);
    let mut state = State::new();
    let mut out: Vec<Instruction> = Vec::new();
    let mut k: usize = 0;
    assert(commands_of(out@) =~= Seq::<Command>::empty());
    while k < lines.len()
        invariant
            k <= lines@.len() == ls.len(),
            ls == split_lines(source@),
            forall|j: int| 0 <= j < lines@.len() ==> (#[trigger] lines@[j])@ == ls[j],
            source@.len() <= isize::MAX,
            scan(ls, k as nat) == (ScanOutcome::Done { cmds: commands_of(out@), occs: state.occs() }),
            state.wf(),
            occs_within(ls, state.occs()),
        decreases lines@.len() - k,
    {
        let row = k + 1;
        let line = &lines[k];
        let ghost l = ls[k as int];
        assert(line@ == l);
        proof {
            lemma_line_length(source@, k as int);
            lemma_line_spans(l);
        }
        let ghost cmds0 = commands_of(out@);
        let ghost occs0 = state.occs();
        match read_line(line) {
            Err((m, s, e)) => {
                proof {
                    lemma_scan_stays_stopped(ls, row as nat, ls.len());
                }
                return Err(display_error(source, m, row, s + 1, e + 1));
            },
            Ok((ins, s, e)) => {
                match &ins {
                    Instruction::Label(n) => {
                        if state.declares(n.as_str()) {
                            let m = message_with("I found a duplicated label name `", n.as_str(), "`. Try renaming it.");
                            proof {
                                lemma_scan_stays_stopped(ls, row as nat, ls.len());
                            }
                            return Err(display_error(source, m, row, s + 1, e + 1));
                        }
                        state.record(LabelOccurrence { name: n.clone(), row, from: s + 1, to: e + 1, declared: true, function: false });
                    },
                    Instruction::Function { name: n, .. } => {
                        if state.declares(n.as_str()) {
                            let m = message_with("I found a duplicated label name `", n.as_str(), "`. Try renaming it.");
                            proof {
                                lemma_scan_stays_stopped(ls, row as nat, ls.len());
                            }
                            return Err(display_error(source, m, row, s + 1, e + 1));
                        }
                        state.record(LabelOccurrence { name: n.clone(), row, from: s + 1, to: e + 1, declared: true, function: true });
                    },
                    Instruction::Goto(n) => {
                        state.record(LabelOccurrence { name: n.clone(), row, from: s + 1, to: e + 1, declared: false, function: false });
                    },
                    Instruction::IfGoto(n) => {
                        state.record(LabelOccurrence { name: n.clone(), row, from: s + 1, to: e + 1, declared: false, function: false });
                    },
                    _ => {},
                }
                let ignored = match &ins {
                    Instruction::Ignored => true,
                    _ => false,
                };
                if !ignored {
                    out.push(ins);
                    assert(commands_of(out@) =~= cmds0.push(ins@));
                }
            },
        }
        assert(occs_within(ls, state.occs()));
        k = k + 1;
    }
    assert(scan(ls, ls.len()) == (ScanOutcome::Done { cmds: commands_of(out@), occs: state.occs() }));
    let ghost all = state.occs();
    let mut text = String::new();
    let mut j: usize = 0;
    let mut found: usize = 0;
    assert(all.subrange(0, 0) =~= Seq::<Occurrence>::empty());
    while j < state.len()
        invariant
            j <= all.len(),
            all == state.occs(),
            state.wf(),
            source@.len() <= isize::MAX,
            ls == split_lines(source@),
            occs_within(ls, all),
            found <= j,
            found == flagged_among(all.subrange(0, j as int), all).len(),
            text@ == report(source@, flagged_among(all.subrange(0, j as int), all)),
        decreases all.len() - j,
    {
        let o = state.occurrence(j);
        let ghost pre = all.subrange(0, j as int);
        let ghost fl = flagged_among(pre, all);
        assert(all.subrange(0, j + 1).drop_last() =~= pre);
        assert(all.subrange(0, j + 1).last() == o@);
        assert(fl.push(o@).drop_last() =~= fl);
        let bad = if o.declared {
            !o.function && !state.uses(o.name.as_str())
        } else {
            !state.declares(o.name.as_str())
        };
        if bad {
            let m = if o.declared {
                message_with("I found an unused label named ", o.name.as_str(), ". Try removing it or use it somewhere.")
            } else {
                message_with("I found an undefined label named ", o.name.as_str(), ". Try removing it or define it somewhere.")
            };
            assert(occs_within(ls, all) ==> 1 <= all[j as int].row <= ls.len());
            let d = display_error(source, m, o.row, o.from, o.to);
            if found > 0 {
                text.append("\n\n");
            } else {
                assert(text@ =~= Seq::<char>::empty());
            }
            text.append(d.as_str());
            assert(flagged_among(all.subrange(0, j + 1), all) == fl.push(o@));
            assert(found > 0 ==> text@ =~= report(source@, fl) + "\n\n"@ + d@);
            found = found + 1;
        }
        j = j + 1;
    }
    assert(all.subrange(0, all.len() as int) =~= all);
    if found == 0 {
        Ok(out)
    } else {
        Err(text)
    }
}

} // verus!
