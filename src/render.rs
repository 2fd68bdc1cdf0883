//! Rendering of a diagnostic: the offending source line with a caret underline.
use vstd::prelude::*;
use crate::text::{decimal, repeat_char, split_lines};

verus! {

/// A diagnostic as rendered for the user: `<row>| <line>`, then carets under
/// columns `[col, to_col)` (one caret where the span is empty), then the
/// warning sign and the message.
pub open spec fn rendered(source: Seq<char>, message: Seq<char>, row: nat, col: nat, to_col: nat) -> Seq<char> {
    let tag = decimal(row);
    let width: nat = if to_col == col { 1 } else { (to_col - col) as nat };
    tag + "| "@ + split_lines(source)[row - 1] + "\n"@
        + repeat_char(' ', (col - 1 + tag.len() + 2) as nat) + repeat_char('^', width)
        + "\n"@ + "\u{26a0}\u{fe0f} "@ + message
}

/// Relies on lip::display_error, which prints the line `row` of `source` (as
/// `split("\n")` numbers them from one) behind its row number and `| `, a line of
/// spaces and carets under the span, and the message behind a warning sign.
/// It indexes the split lines by `row - 1`, subtracts `from.col` from `to.col`
/// and adds the row's width to `col`, hence the bounds.
#[verifier::external_body]
pub(crate) fn display_error(source: &str, message: String, row: usize, col: usize, to_col: usize) -> (r: String)
    requires
        source@.len() <= isize::MAX,
        1 <= row <= split_lines(source@).len(),
        1 <= col <= to_col <= split_lines(source@)[row - 1].len() + 1,
    ensures
        r@ == rendered(source@, message@, row as nat, col as nat, to_col as nat),
{
    lip::display_error(source, message, lip::Location { row, col }, lip::Location { row, col: to_col })
}

} // verus!
