//! Common seed patterns for testing and demos.

use vstd::prelude::*;

verus! {

/// A glider that travels diagonally under Conway's rule.
pub fn glider() -> (r: Vec<(i32, i32)>)
    ensures
        r@ == seq![(1i32, 0i32), (2i32, 1i32), (0i32, 2i32), (1i32, 2i32), (2i32, 2i32)],
{
    let mut v: Vec<(i32, i32)> = Vec::new();
    v.push((1, 0));
    v.push((2, 1));
    v.push((0, 2));
    v.push((1, 2));
    v.push((2, 2));
    proof {
        assert(v@ =~= seq![(1i32, 0i32), (2i32, 1i32), (0i32, 2i32), (1i32, 2i32), (2i32, 2i32)]);
    }
    v
}

/// A blinker: three cells in a row, oscillating with period two.
pub fn blinker() -> (r: Vec<(i32, i32)>)
    ensures
        r@ == seq![(0i32, 0i32), (1i32, 0i32), (2i32, 0i32)],
{
    let mut v: Vec<(i32, i32)> = Vec::new();
    v.push((0, 0));
    v.push((1, 0));
    v.push((2, 0));
    proof {
        assert(v@ =~= seq![(0i32, 0i32), (1i32, 0i32), (2i32, 0i32)]);
    }
    v
}

/// A block: a two-by-two still life.
pub fn block() -> (r: Vec<(i32, i32)>)
    ensures
        r@ == seq![(0i32, 0i32), (1i32, 0i32), (0i32, 1i32), (1i32, 1i32)],
{
    let mut v: Vec<(i32, i32)> = Vec::new();
    v.push((0, 0));
    v.push((1, 0));
    v.push((0, 1));
    v.push((1, 1));
    proof {
        assert(v@ =~= seq![(0i32, 0i32), (1i32, 0i32), (0i32, 1i32), (1i32, 1i32)]);
    }
    v
}

} // verus!
