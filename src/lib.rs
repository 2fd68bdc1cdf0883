//! A compiler from the stack-based VM language to Hack-style assembly text.
use vstd::prelude::*;

pub mod text;
pub mod render;
pub mod names;
pub mod lexer;
pub mod vm_parser;
pub mod vm_emitter;
pub mod laws;

use crate::vm_emitter::{emit, emit_spec, lowerable};
use crate::vm_parser::{commands_of, lemma_scan_lowerable, parse, parse_spec};
use crate::text::split_lines;

verus! {

/// What `compile` returns: the assembly text of the program, or the rendered
/// diagnostics where the source is rejected.
pub open spec fn compile_spec(program_name: Seq<char>, source: Seq<char>) -> Result<Seq<char>, Seq<char>> {
    match parse_spec(source) {
        Ok(cmds) => Ok(emit_spec(program_name, cmds)),
        Err(e) => Err(e),
    }
}

/// A result of strings as a result of character sequences.
pub open spec fn result_view(r: Result<String, String>) -> Result<Seq<char>, Seq<char>> {
    match r {
        Ok(t) => Ok(t@),
        Err(e) => Err(e@),
    }
}

/// Whether `r` is what `compile` returns.
pub open spec fn compile_matches(program_name: Seq<char>, source: Seq<char>, r: Result<String, String>) -> bool {
    result_view(r) == compile_spec(program_name, source)
}

/// Compiles the VM program `source`, whose static variables are named after
/// `program_name`, to assembly text.
pub fn compile(program_name: &str, source: &str) -> (r: Result<String, String>)
    requires
        source@.len() <= isize::MAX,
    ensures
        compile_matches(program_name@, source@, r),
{
    match parse(source) {
        Ok(instructions) => {
            proof {
                lemma_scan_lowerable(split_lines(source@), split_lines(source@).len());
                assert forall|i: int| 0 <= i < instructions@.len() implies lowerable(#[trigger] instructions@[i]@) by {
                    assert(commands_of(instructions@)[i] == instructions@[i]@);
                }
            }
            Ok(emit(program_name, instructions))
        },
        Err(e) => Err(e),
    }
}

} // verus!
