//! Properties of the compiler as a whole.
use vstd::prelude::*;
use crate::{compile_matches, result_view};
use crate::lexer::{digits_value, is_number, line_words, word_at};
use crate::text::{decimal, join_with, lemma_decimal_injective, split_lines};
use crate::vm_emitter::{block, blocks, comparison_block, comparison_name, emit_spec, failure_symbol, success_symbol};
use crate::vm_parser::{
    declared_names, flagged, flagged_among, is_flagged, ScanOutcome, lemma_scan_stays_stopped, parse_line, parse_spec, scan, segment_of, Command,
    Occurrence, Segment, LineOutcome, col, constant_msg, pointer_msg,
};
use crate::render::rendered;
use crate::vm_parser::ArithInstruction;

verus! {

/// Two calls of `compile` on the same program name and source return the same text.
pub proof fn law_compile_deterministic(
    program_name: Seq<char>,
    source: Seq<char>,
    r1: Result<String, String>,
    r2: Result<String, String>,
)
    requires
        compile_matches(program_name, source, r1),
        compile_matches(program_name, source, r2),
    ensures
        result_view(r1) == result_view(r2),
{
}

/// The instructions of `cmds` that are not `Ignored`, in order.
pub open spec fn non_ignored(cmds: Seq<Command>) -> Seq<Command>
    decreases cmds.len(),
{
    if cmds.len() == 0 {
        Seq::empty()
    } else if cmds.last() is Ignored {
        non_ignored(cmds.drop_last())
    } else {
        non_ignored(cmds.drop_last()).push(cmds.last())
    }
}

/// The emitted text has exactly one block per instruction that is not
/// `Ignored`, in input order, the block at place `i` lowering the `i`-th such
/// instruction.
pub proof fn law_one_block_per_instruction(program: Seq<char>, cmds: Seq<Command>)
    ensures
        blocks(program, cmds).len() == non_ignored(cmds).len(),
        forall|i: int| 0 <= i < blocks(program, cmds).len() ==>
            #[trigger] blocks(program, cmds)[i] == block(program, non_ignored(cmds)[i], i as nat),
        emit_spec(program, cmds) == join_with(blocks(program, cmds), "\n"@),
    decreases cmds.len(),
{
    if cmds.len() > 0 {
        law_one_block_per_instruction(program, cmds.drop_last());
    }
}

/// Whether `op` compares.
pub open spec fn is_comparison(op: ArithInstruction) -> bool {
    op == ArithInstruction::Eq || op == ArithInstruction::Gt || op == ArithInstruction::Lt
}

proof fn lemma_comparison_name(op: ArithInstruction)
    ensures
        comparison_name(op).len() == 2,
        comparison_name(op)[0] != 'N',
{
    reveal_strlit("EQ");
    reveal_strlit("GT");
    reveal_strlit("LT");
}

proof fn lemma_success_symbols_differ(a: ArithInstruction, i: nat, b: ArithInstruction, j: nat)
    requires
        i != j,
    ensures
        success_symbol(comparison_name(a), i) != success_symbol(comparison_name(b), j),
        success_symbol(comparison_name(a), i)[0] != 'N',
{
    reveal_strlit("_");
    lemma_comparison_name(a);
    lemma_comparison_name(b);
    let sa = success_symbol(comparison_name(a), i);
    let sb = success_symbol(comparison_name(b), j);
    assert(sa.subrange(3, sa.len() as int) =~= decimal(i));
    assert(sb.subrange(3, sb.len() as int) =~= decimal(j));
    if sa == sb {
        lemma_decimal_injective(i, j);
    }
}

/// Any two comparisons of a program get four jump targets that are pairwise
/// distinct from each other's: `k` comparisons give `k` distinct pairs.
pub proof fn law_comparison_symbols_distinct(program: Seq<char>, cmds: Seq<Command>, i: int, j: int)
    requires
        0 <= i < j < non_ignored(cmds).len(),
        non_ignored(cmds)[i] matches Command::Arithmetic(a) && is_comparison(a),
        non_ignored(cmds)[j] matches Command::Arithmetic(b) && is_comparison(b),
    ensures
        ({
            let a = non_ignored(cmds)[i]->Arithmetic_0;
            let b = non_ignored(cmds)[j]->Arithmetic_0;
            let (si, fi) = (success_symbol(comparison_name(a), i as nat), failure_symbol(comparison_name(a), i as nat));
            let (sj, fj) = (success_symbol(comparison_name(b), j as nat), failure_symbol(comparison_name(b), j as nat));
            &&& blocks(program, cmds)[i] == comparison_block(i as nat, comparison_name(a))
            &&& blocks(program, cmds)[j] == comparison_block(j as nat, comparison_name(b))
            &&& si != sj && fi != fj && si != fj && fi != sj
        }),
{
    law_one_block_per_instruction(program, cmds);
    let a = non_ignored(cmds)[i]->Arithmetic_0;
    let b = non_ignored(cmds)[j]->Arithmetic_0;
    assert(blocks(program, cmds)[i] == block(program, non_ignored(cmds)[i], i as nat));
    assert(blocks(program, cmds)[j] == block(program, non_ignored(cmds)[j], j as nat));
    reveal_strlit("NOT_");
    lemma_success_symbols_differ(a, i as nat, b, j as nat);
    lemma_success_symbols_differ(b, j as nat, a, i as nat);
    let si = success_symbol(comparison_name(a), i as nat);
    let sj = success_symbol(comparison_name(b), j as nat);
    let fi = failure_symbol(comparison_name(a), i as nat);
    let fj = failure_symbol(comparison_name(b), j as nat);
    assert(fi[0] == 'N');
    assert(fj[0] == 'N');
    assert(fi.subrange(4, fi.len() as int) =~= si);
    assert(fj.subrange(4, fj.len() as int) =~= sj);
}

proof fn lemma_declared_names_contains(occs: Seq<Occurrence>, d: int)
    requires
        0 <= d < occs.len(),
        occs[d].declared,
    ensures
        declared_names(occs).contains(occs[d].name),
    decreases occs.len(),
{
    if d < occs.len() - 1 {
        lemma_declared_names_contains(occs.drop_last(), d);
    }
}

/// A reference to a name is never reported when the name is declared anywhere
/// in the program, also after the reference.
pub proof fn law_forward_reference(occs: Seq<Occurrence>, u: int, d: int)
    requires
        0 <= u < occs.len(),
        0 <= d < occs.len(),
        !occs[u].declared,
        occs[d].declared,
        occs[u].name == occs[d].name,
    ensures
        !is_flagged(occs[u], occs),
{
    lemma_declared_names_contains(occs, d);
}

/// A push or pop line that stores into the constant segment, or that names a
/// pointer other than 0 or 1.
pub open spec fn is_bad_segment_line(line: Seq<char>) -> bool {
    let ws = line_words(line);
    let head = word_at(line, ws[0]);
    let seg = segment_of(word_at(line, ws[1]));
    &&& ws.len() == 3
    &&& head == "push"@ || head == "pop"@
    &&& seg is Some
    &&& is_number(word_at(line, ws[2]))
    &&& (head == "pop"@ && seg->0 == Segment::Constant)
        || (seg->0 == Segment::Pointer && digits_value(word_at(line, ws[2])) > 1)
}

/// The message for a bad segment line: storing into the constant segment, or
/// a pointer out of range.
pub open spec fn bad_segment_msg(line: Seq<char>) -> Seq<char> {
    let ws = line_words(line);
    let n = digits_value(word_at(line, ws[2])) as usize;
    if word_at(line, ws[0]) == "pop"@ && segment_of(word_at(line, ws[1]))->0 == Segment::Constant {
        constant_msg(n)
    } else {
        pointer_msg(n)
    }
}

proof fn lemma_bad_line_fails(line: Seq<char>)
    requires
        is_bad_segment_line(line),
    ensures
        parse_line(line) == (LineOutcome::Failed {
            message: bad_segment_msg(line),
            span: (line_words(line)[0].0, line_words(line)[2].1),
        }),
{
    reveal_strlit("push");
    reveal_strlit("pop");
}

proof fn lemma_scan_stops_at(ls: Seq<Seq<char>>, k: nat)
    requires
        k < ls.len(),
        parse_line(ls[k as int]) is Failed,
    ensures
        scan(ls, (k + 1) as nat) is Stopped,
{
}

/// A program with a line that pops into the constant segment, or pushes or
/// pops a pointer other than 0 or 1, is rejected wherever that line stands.
/// Where no earlier line is in error, the result is that line's single
/// diagnostic: its row, the span of the instruction and the message saying
/// why.
pub proof fn law_bad_segment_rejected(source: Seq<char>, k: int)
    requires
        0 <= k < split_lines(source).len(),
        is_bad_segment_line(split_lines(source)[k]),
    ensures
        parse_spec(source) is Err,
        scan(split_lines(source), k as nat) is Done ==> parse_spec(source) == Err::<Seq<Command>, Seq<char>>(
            rendered(
                source,
                bad_segment_msg(split_lines(source)[k]),
                (k + 1) as nat,
                col(line_words(split_lines(source)[k])[0].0),
                col(line_words(split_lines(source)[k])[2].1),
            ),
        ),
{
    let ls = split_lines(source);
    lemma_bad_line_fails(ls[k]);
    lemma_scan_stops_at(ls, k as nat);
    lemma_scan_stays_stopped(ls, (k + 1) as nat, ls.len());
}

/// The rows of `occs` strictly increase.
pub open spec fn rows_increasing(occs: Seq<Occurrence>) -> bool {
    forall|i: int, j: int| 0 <= i < j < occs.len() ==> #[trigger] occs[i].row < #[trigger] occs[j].row
}

proof fn lemma_scan_rows(ls: Seq<Seq<char>>, k: nat)
    ensures
        scan(ls, k) matches ScanOutcome::Done { occs, .. } ==> rows_increasing(occs) && forall|i: int|
            0 <= i < occs.len() ==> #[trigger] occs[i].row <= k,
    decreases k,
{
    if k > 0 {
        lemma_scan_rows(ls, (k - 1) as nat);
    }
}

proof fn lemma_flagged_rows(occs: Seq<Occurrence>, all: Seq<Occurrence>)
    requires
        rows_increasing(occs),
    ensures
        rows_increasing(flagged_among(occs, all)),
        forall|i: int| 0 <= i < flagged_among(occs, all).len() ==>
            exists|j: int| 0 <= j < occs.len() && #[trigger] flagged_among(occs, all)[i] == occs[j],
    decreases occs.len(),
{
    if occs.len() > 0 {
        let prev = occs.drop_last();
        assert(rows_increasing(prev));
        lemma_flagged_rows(prev, all);
        let fp = flagged_among(prev, all);
        assert forall|i: int| 0 <= i < fp.len() implies #[trigger] fp[i].row < occs.last().row by {
            let j = choose|j: int| 0 <= j < prev.len() && fp[i] == prev[j];
            assert(occs[j] == prev[j]);
        }
        let f = flagged_among(occs, all);
        assert forall|i: int| 0 <= i < f.len() implies exists|j: int| 0 <= j < occs.len() && #[trigger] f[i] == occs[j] by {
            if i < fp.len() {
                let j = choose|j: int| 0 <= j < prev.len() && fp[i] == prev[j];
                assert(f[i] == occs[j]);
            } else {
                assert(f[i] == occs[occs.len() - 1]);
            }
        }
    }
}

/// The diagnostics reported after the label pass come in increasing order
/// of their rows.
pub proof fn law_reports_in_row_order(source: Seq<char>)
    ensures
        scan(split_lines(source), split_lines(source).len()) matches ScanOutcome::Done { occs, .. }
            ==> rows_increasing(flagged(occs)),
{
    let ls = split_lines(source);
    lemma_scan_rows(ls, ls.len());
    if let ScanOutcome::Done { occs, .. } = scan(ls, ls.len()) {
        lemma_flagged_rows(occs, occs);
    }
}

} // verus!
