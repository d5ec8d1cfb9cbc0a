use vstd::prelude::*;

verus! {

/// Rows left for the image once the bubble and one blank separator row are
/// taken from the terminal's height (never negative).
pub open spec fn remaining_rows(total_rows: nat, bubble_line_count: nat) -> nat {
    if total_rows > bubble_line_count + 1 {
        (total_rows - bubble_line_count - 1) as nat
    } else {
        0
    }
}

/// Height of the image: the smaller of the ratio cap and the remaining rows,
/// but at least one row.
pub open spec fn image_rows_spec(total_rows: nat, bubble_line_count: nat, capped: nat) -> nat {
    let remaining = remaining_rows(total_rows, bubble_line_count);
    let m = if capped < remaining { capped } else { remaining };
    if m < 1 { 1 } else { m }
}

/// Number of terminal rows given to the image. `capped` is the configured
/// height ratio applied to `total_rows` and rounded down.
pub fn image_rows(total_rows: usize, bubble_line_count: usize, capped: usize) -> (r: usize)
    ensures
        r as nat == image_rows_spec(total_rows as nat, bubble_line_count as nat, capped as nat),
        r >= 1,
        r <= capped || r == 1,
        r <= remaining_rows(total_rows as nat, bubble_line_count as nat) || r == 1,
{
    let remaining: usize = if bubble_line_count < total_rows && total_rows - bubble_line_count > 1 {
        total_rows - bubble_line_count - 1
    } else {
        0
    };
    let m: usize = if capped < remaining { capped } else { remaining };
    if m < 1 { 1 } else { m }
}

} // verus!
