//! Pattern I/O: run-length-encoded pattern loader.
//!
//! Only the essential tokens are parsed; comment and header lines are
//! skipped. Loading only ever turns cells alive: a failed load leaves every
//! cell it did not reach unchanged, and never kills a cell.

use vstd::prelude::*;
use vstd::string::StringSliceAdditionalSpecFns;

use crate::{CellState, Grid};

pub mod lif;

verus! {

/// Why an encoded pattern was rejected.
#[derive(Debug, PartialEq, Eq, Structural)]
pub enum PatternError {
    /// A character outside the run-length alphabet.
    InvalidChar,
    /// A zero, overflowing or dangling run length.
    InvalidRun,
    /// The pattern does not fit the grid at the given offset.
    OutOfBounds,
}

impl PatternError {
    /// A short description of the failure.
    pub fn message(&self) -> (r: &'static str)
    {
        match self {
            PatternError::InvalidChar => "invalid character in RLE",
            PatternError::InvalidRun => "run-length overflow or zero",
            PatternError::OutOfBounds => "pattern exceeds grid bounds",
        }
    }
}

/// Loading only turns cells alive: the new grid agrees with the old one
/// everywhere except cells that are now alive.
pub open spec fn only_enlivens(pre: Grid, post: Grid) -> bool {
    &&& post.spec_cols() == pre.spec_cols()
    &&& post.spec_rows() == pre.spec_rows()
    &&& forall|x: int, y: int|
        #[trigger] post.spec_cell(x, y) == pre.spec_cell(x, y) || post.spec_cell(x, y)
}

/// Load a run-length-encoded pattern into `grid`, top-left corner at
/// `(ox, oy)`. Lines starting with `#` (comments) or `x` (the header) are
/// skipped. Runs of `o` become live cells, `b` skips dead cells, `$` ends
/// rows, `!` ends the pattern.
///
/// Returns `OutOfBounds` as soon as a live cell would fall outside the
/// grid, `InvalidRun` for zero, overflowing or dangling run counts, and
/// `InvalidChar` for anything outside the alphabet; cells written before
/// the failure stay alive, and no cell is ever cleared.
pub fn load_rle_into_grid(grid: &mut Grid, rle: &str, ox: usize, oy: usize) -> (r: Result<
    (),
    PatternError,
>)
    requires
        old(grid).wf(),
    ensures
        final(grid).wf(),
        only_enlivens(*old(grid), *final(grid)),
{
    let bytes = rle.as_bytes();
    let n = bytes.len();
    let mut i: usize = 0;
    let mut x: usize = 0;
    let mut y: usize = 0;
    let mut line_start = true;
    let mut skipping_line = false;
    while i < n
        invariant
            grid.wf(),
            only_enlivens(*old(grid), *grid),
            n == bytes@.len(),
            i <= n,
        decreases n - i,
    {
        let c = bytes[i];
        if c == 10 || c == 13 {
            line_start = true;
            skipping_line = false;
            i += 1;
            continue ;
        }
        if skipping_line {
            i += 1;
            continue ;
        }
        if line_start && (c == 35 || c == 120) {
            // '#' comment or 'x' header: skip the rest of the line.
            skipping_line = true;
            line_start = false;
            i += 1;
            continue ;
        }
        line_start = false;
        if c == 32 {
            i += 1;
            continue ;
        }
        if c == 33 {
            // '!' ends the pattern.
            return Ok(());
        }
        let mut run: usize = 1;
        if 48 <= c && c <= 57 {
            let ghost i_at = i as int;
            let mut value: usize = 0;
            while i < n && 48 <= bytes[i] && bytes[i] <= 57
                invariant
                    grid.wf(),
                    only_enlivens(*old(grid), *grid),
                    n == bytes@.len(),
                    i_at <= i <= n,
                    value <= 1_000_000_009,
                decreases n - i,
            {
                let d = (bytes[i] - 48) as usize;
                if value > 100_000_000 {
                    return Err(PatternError::InvalidRun);
                }
                value = value * 10 + d;
                i += 1;
            }
            if value == 0 {
                return Err(PatternError::InvalidRun);
            }
            if i >= n {
                return Err(PatternError::InvalidRun);
            }
            run = value;
        }
        let tok = bytes[i];
        if tok == 98 {
            // 'b': dead cells.
            if x > usize::MAX - run {
                return Err(PatternError::InvalidRun);
            }
            x += run;
        } else if tok == 111 {
            // 'o': live cells.
            if x > usize::MAX - run {
                return Err(PatternError::InvalidRun);
            }
            let mut k: usize = 0;
            while k < run
                invariant
                    grid.wf(),
                    only_enlivens(*old(grid), *grid),
                    k <= run,
                    x + run <= usize::MAX,
                decreases run - k,
            {
                let cx = x + k;
                if cx >= grid.cols() {
                    return Err(PatternError::OutOfBounds);
                }
                if ox >= grid.cols() - cx {
                    return Err(PatternError::OutOfBounds);
                }
                if y >= grid.rows() {
                    return Err(PatternError::OutOfBounds);
                }
                if oy >= grid.rows() - y {
                    return Err(PatternError::OutOfBounds);
                }
                grid.set(ox + cx, oy + y, CellState::Alive);
                k += 1;
            }
            x += run;
        } else if tok == 36 {
            // '$': end of row(s).
            if y > usize::MAX - run {
                return Err(PatternError::InvalidRun);
            }
            y += run;
            x = 0;
        } else if tok == 33 {
            return Ok(());
        } else if tok == 10 || tok == 13 || tok == 32 {
            // A run count must be followed by a token on the same line.
            return Err(PatternError::InvalidRun);
        } else {
            return Err(PatternError::InvalidChar);
        }
        i += 1;
    }
    Ok(())
}

} // verus!
