//! Plain-text Life 1.x pattern loader.
//!
//! Header and comment lines (`#Life`, `#N`, `#D`) are skipped, `#P x y`
//! repositions the cursor, and pattern rows use `.` for dead and `*` for
//! alive. Loading only ever turns cells alive.

use vstd::prelude::*;

use crate::io::only_enlivens;
use crate::{CellState, Grid};

verus! {

/// Why a plain-text pattern was rejected.
#[derive(Debug, PartialEq, Eq, Structural)]
pub enum LifError {
    /// The pattern does not fit the grid at the given offset.
    OutOfBounds,
    /// A row character other than `.` or `*`.
    BadChar,
}

impl LifError {
    /// A short description of the failure.
    pub fn message(&self) -> (r: &'static str)
    {
        match self {
            LifError::OutOfBounds => "pattern exceeds grid bounds",
            LifError::BadChar => "invalid character in .lif file",
        }
    }
}

/// Load a plain-text pattern into `grid`, top-left offset `(ox, oy)`.
///
/// A `*` outside the grid (after the cursor and offset are applied) fails
/// with `OutOfBounds`; any row character other than `.` or `*` fails with
/// `BadChar`. Rows written before a failure stay alive, and no cell is
/// ever cleared.
pub fn load_lif_into_grid(grid: &mut Grid, lif: &str, ox: usize, oy: usize) -> (r: Result<
    (),
    LifError,
>)
    requires
        old(grid).wf(),
        ox <= 0x4000_0000,
        oy <= 0x4000_0000,
    ensures
        final(grid).wf(),
        only_enlivens(*old(grid), *final(grid)),
{
    let bytes = lif.as_bytes();
    let n = bytes.len();
    let mut i: usize = 0;
    let mut px: i64 = 0;
    let mut py: i64 = 0;
    while i < n
        invariant
            grid.wf(),
            only_enlivens(*old(grid), *grid),
            ox <= 0x4000_0000,
            oy <= 0x4000_0000,
            n == bytes@.len(),
            i <= n,
            -0x4000_0000_0000_0000 <= px <= 0x4000_0000_0000_0000,
            -0x4000_0000_0000_0000 <= py <= 0x4000_0000_0000_0000,
        decreases n - i,
    {
        // Find the end of the current line.
        let start = i;
        let mut end = i;
        while end < n && bytes[end] != 10
            invariant
                n == bytes@.len(),
                start <= end <= n,
            decreases n - end,
        {
            end += 1;
        }
        let mut stop = end;
        if stop > start && bytes[stop - 1] == 13 {
            stop -= 1;
        }
        let next_i = if end < n {
            end + 1
        } else {
            n
        };
        if is_header(bytes, start, stop) {
            i = next_i;
            continue ;
        }
        if stop - start >= 3 && bytes[start] == 35 && bytes[start + 1] == 80 && bytes[start + 2]
            == 32 {
            // "#P x y" repositions the cursor.
            let (nx, ny, two_fields) = parse_cursor(bytes, start + 3, stop);
            if two_fields {
                px = nx;
                py = ny;
            }
            i = next_i;
            continue ;
        }
        // A pattern row.
        let mut dx: usize = 0;
        let mut j = start;
        while j < stop
            invariant
                grid.wf(),
                only_enlivens(*old(grid), *grid),
                ox <= 0x4000_0000,
                oy <= 0x4000_0000,
                n == bytes@.len(),
                start <= j <= stop <= n,
                dx == j - start,
                -0x4000_0000_0000_0000 <= px <= 0x4000_0000_0000_0000,
                -0x4000_0000_0000_0000 <= py <= 0x4000_0000_0000_0000,
            decreases stop - j,
        {
            let c = bytes[j];
            if c == 42 {
                // '*': a live cell. Rows beyond any representable grid
                // width cannot fit.
                if dx as u64 >= 1_000_000_000_000u64 {
                    return Err(LifError::OutOfBounds);
                }
                let gx = (ox as i64) + px + (dx as i64);
                let gy = (oy as i64) + py;
                if gx < 0 || gy < 0 {
                    return Err(LifError::OutOfBounds);
                }
                if gx >= grid.cols() as i64 || gy >= grid.rows() as i64 {
                    return Err(LifError::OutOfBounds);
                }
                grid.set(gx as usize, gy as usize, CellState::Alive);
            } else if c != 46 {
                // Anything but '.' is an error.
                return Err(LifError::BadChar);
            }
            j += 1;
            dx += 1;
        }
        if py < 0x4000_0000_0000_0000 {
            py += 1;
        }
        i = next_i;
    }
    Ok(())
}

/// Whether the line is a header or comment (`#Life`, `#N`, `#D`).
fn is_header(bytes: &[u8], start: usize, stop: usize) -> (r: bool)
    requires
        start <= stop <= bytes@.len(),
{
    if stop - start >= 5 && bytes[start] == 35 && bytes[start + 1] == 76 && bytes[start + 2] == 105
        && bytes[start + 3] == 102 && bytes[start + 4] == 101 {
        return true;
    }
    if stop - start >= 2 && bytes[start] == 35 && (bytes[start + 1] == 78 || bytes[start + 1]
        == 68) {
        return true;
    }
    false
}

/// Parse the two whitespace-separated integers of a `#P` line. Fields that
/// are not plain decimal integers read as zero; reports whether exactly
/// two fields were present.
fn parse_cursor(bytes: &[u8], start: usize, stop: usize) -> (r: (i64, i64, bool))
    requires
        start <= stop <= bytes@.len(),
    ensures
        -0x4000_0000_0000_0000 <= r.0 <= 0x4000_0000_0000_0000,
        -0x4000_0000_0000_0000 <= r.1 <= 0x4000_0000_0000_0000,
{
    let mut fields: usize = 0;
    let mut first: i64 = 0;
    let mut second: i64 = 0;
    let mut j = start;
    while j < stop
        invariant
            start <= j <= stop <= bytes@.len(),
            -0x4000_0000_0000_0000 <= first <= 0x4000_0000_0000_0000,
            -0x4000_0000_0000_0000 <= second <= 0x4000_0000_0000_0000,
        decreases stop - j,
    {
        if bytes[j] == 32 || bytes[j] == 9 {
            j += 1;
            continue ;
        }
        let mut k = j;
        while k < stop && bytes[k] != 32 && bytes[k] != 9
            invariant
                j <= k <= stop <= bytes@.len(),
            decreases stop - k,
        {
            k += 1;
        }
        let value = parse_signed(bytes, j, k);
        if fields == 0 {
            first = value;
        } else if fields == 1 {
            second = value;
        }
        if fields < 3 {
            fields += 1;
        }
        j = k;
    }
    (first, second, fields == 2)
}

/// Parse a decimal integer with an optional leading minus; anything that
/// is not a plain in-range decimal integer reads as zero.
fn parse_signed(bytes: &[u8], start: usize, stop: usize) -> (r: i64)
    requires
        start <= stop <= bytes@.len(),
    ensures
        -0x4000_0000_0000_0000 <= r <= 0x4000_0000_0000_0000,
{
    let mut j = start;
    let mut negative = false;
    if j < stop && bytes[j] == 45 {
        negative = true;
        j += 1;
    }
    if j >= stop {
        return 0;
    }
    let mut value: i64 = 0;
    while j < stop
        invariant
            start <= j <= stop <= bytes@.len(),
            0 <= value <= 0x4000_0000_0000_0000,
        decreases stop - j,
    {
        let c = bytes[j];
        if c < 48 || c > 57 {
            return 0;
        }
        if value > 100_000_000_000_000 {
            return 0;
        }
        value = value * 10 + ((c - 48) as i64);
        j += 1;
    }
    if negative {
        -value
    } else {
        value
    }
}

} // verus!
