//! Sparse, unbounded grid: only non-dead cells are stored, keyed by their
//! packed coordinates, with a coherent position list kept alongside for
//! cheap iteration.
//!
//! Coordinates wrap around at the `i32` boundary, so every cell always has
//! eight neighbours.

use vstd::prelude::*;

use std::collections::HashMap;

use crate::CellState;
use crate::start_screen::RuleType;

pub mod patterns;

verus! {

broadcast use vstd::std_specs::hash::group_hash_axioms;

/// Cells are stored under their packed coordinates: the `x` word shifted
/// above the `y` word.
pub open spec fn spec_key(x: i32, y: i32) -> u64 {
    ((x as u32 as u64) * 0x1_0000_0000 + (y as u32 as u64)) as u64
}

/// State of the cell at `(x, y)` in a cell map; unstored cells are dead.
pub open spec fn cell_of(m: Map<u64, CellState>, x: i32, y: i32) -> CellState {
    if m.dom().contains(spec_key(x, y)) {
        m[spec_key(x, y)]
    } else {
        CellState::Dead
    }
}

/// Packed coordinates are unique per cell.
pub proof fn lemma_key_injective(x1: i32, y1: i32, x2: i32, y2: i32)
    requires
        spec_key(x1, y1) == spec_key(x2, y2),
    ensures
        x1 == x2 && y1 == y2,
{
    let a1 = x1 as u32 as u64;
    let b1 = y1 as u32 as u64;
    let a2 = x2 as u32 as u64;
    let b2 = y2 as u32 as u64;
    assert(a1 == a2 && b1 == b2) by (nonlinear_arith)
        requires
            a1 * 0x1_0000_0000 + b1 == a2 * 0x1_0000_0000 + b2,
            a1 < 0x1_0000_0000,
            b1 < 0x1_0000_0000,
            a2 < 0x1_0000_0000,
            b2 < 0x1_0000_0000,
    ;
    assert(x1 == x2) by (bit_vector)
        requires
            x1 as u32 == x2 as u32,
    ;
    assert(y1 == y2) by (bit_vector)
        requires
            y1 as u32 == y2 as u32,
    ;
}

/// One step along an axis with wrap-around at the `i32` boundary.
pub open spec fn spec_adj(v: i32, d: int) -> i32 {
    if v + d > i32::MAX as int {
        i32::MIN
    } else if v + d < i32::MIN as int {
        i32::MAX
    } else {
        (v + d) as i32
    }
}

/// Neighbour coordinate, wrapping at the `i32` boundary.
fn adj(v: i32, d: i32) -> (r: i32)
    requires
        -1 <= d <= 1,
    ensures
        r == spec_adj(v, d as int),
{
    v.wrapping_add(d)
}

/// Stepping back undoes stepping forward.
pub proof fn lemma_adj_inverse(v: i32, d: int)
    requires
        -1 <= d <= 1,
    ensures
        spec_adj(spec_adj(v, d), -d) == v,
{
}

/// Axis-aligned bounding box of the stored cells.
#[derive(Clone, Debug)]
pub struct GridBounds {
    /// Smallest stored x.
    pub min_x: i32,
    /// Largest stored x.
    pub max_x: i32,
    /// Smallest stored y.
    pub min_y: i32,
    /// Largest stored y.
    pub max_y: i32,
}

/// Sparse infinite grid: a map from packed coordinates to non-dead states,
/// with a coherent list of the stored positions.
#[derive(Clone, Debug)]
pub struct InfiniteGrid {
    alive_cells: HashMap<u64, CellState>,
    cached_alive_positions: Vec<(i32, i32)>,
    bounds: Option<GridBounds>,
    version: u64,
}

impl InfiniteGrid {
    /// The stored cells, keyed by packed coordinates.
    pub closed spec fn spec_cells(&self) -> Map<u64, CellState> {
        self.alive_cells@
    }

    /// The stored positions, in insertion order.
    pub closed spec fn spec_positions(&self) -> Seq<(i32, i32)> {
        self.cached_alive_positions@
    }

    /// The cached bounding box.
    pub closed spec fn spec_bounds(&self) -> Option<GridBounds> {
        self.bounds
    }

    /// The change-detection counter.
    pub closed spec fn spec_version(&self) -> u64 {
        self.version
    }

    /// State of the cell at `(x, y)`; unstored cells are dead.
    pub open spec fn spec_cell(&self, x: i32, y: i32) -> CellState {
        cell_of(self.spec_cells(), x, y)
    }

    /// Coherence of the grid: the map stores no dead cells, the position
    /// list carries exactly the map's keys without duplicates, and the
    /// bounding box covers every stored position.
    pub open spec fn wf(&self) -> bool {
        &&& forall|k: u64|
            self.spec_cells().dom().contains(k) ==> #[trigger] self.spec_cells()[k]
                != CellState::Dead
        &&& forall|i: int|
            0 <= i < self.spec_positions().len() ==> self.spec_cells().dom().contains(
                spec_key((#[trigger] self.spec_positions()[i]).0, self.spec_positions()[i].1),
            )
        &&& forall|i: int, j: int|
            0 <= i < j < self.spec_positions().len() ==> spec_key(
                (#[trigger] self.spec_positions()[i]).0,
                self.spec_positions()[i].1,
            ) != spec_key((#[trigger] self.spec_positions()[j]).0, self.spec_positions()[j].1)
        &&& forall|k: u64|
            #[trigger] self.spec_cells().dom().contains(k) ==> exists|i: int|
                0 <= i < self.spec_positions().len() && spec_key(
                    (#[trigger] self.spec_positions()[i]).0,
                    self.spec_positions()[i].1,
                ) == k
        &&& match self.spec_bounds() {
            Some(b) => forall|i: int|
                0 <= i < self.spec_positions().len() ==> b.min_x
                    <= (#[trigger] self.spec_positions()[i]).0 <= b.max_x && b.min_y
                    <= self.spec_positions()[i].1 <= b.max_y,
            None => self.spec_positions().len() == 0,
        }
        &&& vstd::std_specs::hash::obeys_key_model::<u64>()
    }

    /// Create a new empty infinite grid.
    pub fn new() -> (r: Self)
        ensures
            r.wf(),
            r.spec_positions().len() == 0,
            r.spec_cells() == Map::<u64, CellState>::empty(),
            r.spec_bounds() is None,
            r.spec_version() == 0,
            forall|x: i32, y: i32| #[trigger] r.spec_cell(x, y) == CellState::Dead,
    {
        let grid = InfiniteGrid {
            alive_cells: HashMap::new(),
            cached_alive_positions: Vec::new(),
            bounds: None,
            version: 0,
        };
        proof {
            assert(forall|x: i32, y: i32| #[trigger]
                grid.spec_cell(x, y) == CellState::Dead);
        }
        grid
    }
}

impl Default for InfiniteGrid {
    fn default() -> (r: Self)
        ensures
            r.wf(),
            r.spec_positions().len() == 0,
            r.spec_version() == 0,
    {
        InfiniteGrid::new()
    }
}

impl InfiniteGrid {
    /// Get the cell state at the given coordinates.
    pub fn get(&self, x: i32, y: i32) -> (r: CellState)
        requires
            self.wf(),
        ensures
            r == self.spec_cell(x, y),
    {
        let key = pack_key(x, y);
        match self.alive_cells.get(&key) {
            Some(state) => *state,
            None => CellState::Dead,
        }
    }

    /// Check if a cell is alive at the given coordinates.
    pub fn is_alive(&self, x: i32, y: i32) -> (r: bool)
        requires
            self.wf(),
        ensures
            r == self.spec_cell(x, y).spec_is_alive(),
    {
        self.get(x, y).is_alive()
    }

    /// Get the current version (for change detection).
    pub fn version(&self) -> (r: u64)
        ensures
            r == self.spec_version(),
    {
        self.version
    }

    /// Count of stored cells.
    pub fn live_cell_count(&self) -> (r: usize)
        requires
            self.wf(),
        ensures
            r == self.spec_positions().len(),
    {
        self.cached_alive_positions.len()
    }

    /// Count of stored cells, without mutable access.
    pub fn alive_cells_count(&self) -> (r: usize)
        requires
            self.wf(),
        ensures
            r == self.spec_positions().len(),
    {
        self.cached_alive_positions.len()
    }

    /// Population: the number of stored cells.
    pub fn population(&self) -> (r: usize)
        requires
            self.wf(),
        ensures
            r == self.spec_positions().len(),
    {
        self.cached_alive_positions.len()
    }

    /// All stored cell positions.
    pub fn alive_cells(&self) -> (r: &Vec<(i32, i32)>)
        requires
            self.wf(),
        ensures
            r@ == self.spec_positions(),
    {
        &self.cached_alive_positions
    }

    /// The stored cell positions (kept coherent with the map, so no
    /// recomputation is needed).
    pub fn get_alive_cells(&mut self) -> (r: &Vec<(i32, i32)>)
        requires
            old(self).wf(),
        ensures
            *final(self) == *old(self),
            r@ == final(self).spec_positions(),
    {
        &self.cached_alive_positions
    }

    /// A snapshot of the stored cell positions.
    pub fn get_alive_cells_snapshot(&self) -> (r: Vec<(i32, i32)>)
        requires
            self.wf(),
        ensures
            r@ == self.spec_positions(),
    {
        let mut out: Vec<(i32, i32)> = Vec::new();
        let mut i: usize = 0;
        while i < self.cached_alive_positions.len()
            invariant
                i <= self.spec_positions().len(),
                out@ == self.spec_positions().take(i as int),
            decreases self.spec_positions().len() - i,
        {
            out.push(self.cached_alive_positions[i]);
            proof {
                assert(out@ =~= self.spec_positions().take(i + 1));
            }
            i += 1;
        }
        proof {
            assert(out@ =~= self.spec_positions());
        }
        out
    }

    /// The cached bounding box, if any cell was ever stored.
    pub fn bounds(&self) -> (r: &Option<GridBounds>)
        ensures
            r == &self.spec_bounds(),
    {
        &self.bounds
    }

    /// Clear all cells.
    pub fn clear(&mut self)
        requires
            old(self).wf(),
        ensures
            final(self).wf(),
            final(self).spec_positions().len() == 0,
            final(self).spec_bounds() is None,
            forall|x: i32, y: i32| #[trigger] final(self).spec_cell(x, y) == CellState::Dead,
            final(self).spec_version() == spec_next_version(old(self).spec_version()),
    {
        self.alive_cells.clear();
        self.cached_alive_positions.clear();
        self.bounds = None;
        self.version = self.version.wrapping_add(1);
    }

    /// Set a cell's state. Storing `Dead` removes the cell; any other state
    /// is stored and grows the bounding box.
    pub fn set(&mut self, x: i32, y: i32, state: CellState)
        requires
            old(self).wf(),
        ensures
            final(self).wf(),
            final(self).spec_cell(x, y) == if state == CellState::Dead {
                CellState::Dead
            } else {
                state
            },
            forall|i: i32, j: i32|
                !(i == x && j == y) ==> #[trigger] final(self).spec_cell(i, j) == old(
                    self,
                ).spec_cell(i, j),
            final(self).spec_version() == spec_next_version(old(self).spec_version()),
            final(self).spec_positions().len() <= old(self).spec_positions().len() + 1,
    {
        let key = pack_key(x, y);
        let ghost k0 = spec_key(x, y);
        match state {
            CellState::Dead => {
                if self.alive_cells.contains_key(&key) {
                    self.alive_cells.remove(&key);
                    let found = find_position(&self.cached_alive_positions, x, y);
                    self.cached_alive_positions.remove(found);
                    proof {
                        let pre = *old(self);
                        let posts = self.spec_positions();
                        let pres = pre.spec_positions();
                        let f = found as int;
                        assert(self.spec_cells() =~= pre.spec_cells().remove(k0));
                        assert forall|i: int|
                            0 <= i < posts.len() implies self.spec_cells().dom().contains(
                            spec_key((#[trigger] posts[i]).0, posts[i].1),
                        ) by {
                            let oi = if i < f {
                                i
                            } else {
                                i + 1
                            };
                            assert(posts[i] == pres[oi]);
                            if spec_key(pres[oi].0, pres[oi].1) == k0 {
                                assert(spec_key(pres[f].0, pres[f].1) == k0);
                                assert(false);
                            }
                        }
                        assert forall|i: int, j: int|
                            0 <= i < j < posts.len() implies spec_key(
                            (#[trigger] posts[i]).0,
                            posts[i].1,
                        ) != spec_key((#[trigger] posts[j]).0, posts[j].1) by {
                            let oi = if i < f {
                                i
                            } else {
                                i + 1
                            };
                            let oj = if j < f {
                                j
                            } else {
                                j + 1
                            };
                            assert(posts[i] == pres[oi] && posts[j] == pres[oj]);
                        }
                        assert forall|k: u64| #[trigger]
                            self.spec_cells().dom().contains(k) implies exists|i: int|
                            0 <= i < posts.len() && spec_key(
                                (#[trigger] posts[i]).0,
                                posts[i].1,
                            ) == k by {
                            let oi = choose|oi: int|
                                0 <= oi < pres.len() && spec_key(
                                    (#[trigger] pres[oi]).0,
                                    pres[oi].1,
                                ) == k;
                            if oi == f {
                                assert(false);
                            }
                            let wi = if oi < f {
                                oi
                            } else {
                                oi - 1
                            };
                            assert(posts[wi] == pres[oi]);
                            assert(spec_key(posts[wi].0, posts[wi].1) == k);
                        }
                        match self.spec_bounds() {
                            Some(b) => {
                                assert forall|i: int|
                                    0 <= i < posts.len() implies b.min_x <= (
                                #[trigger] posts[i]).0 <= b.max_x && b.min_y <= posts[i].1
                                    <= b.max_y by {
                                    let oi = if i < f {
                                        i
                                    } else {
                                        i + 1
                                    };
                                    assert(posts[i] == pres[oi]);
                                }
                            },
                            None => {},
                        }
                    }
                } else {
                    proof {
                        assert(self.spec_cells() =~= old(self).spec_cells());
                    }
                }
            },
            _ => {
                let newly = !self.alive_cells.contains_key(&key);
                self.alive_cells.insert(key, state);
                if newly {
                    self.cached_alive_positions.push((x, y));
                }
                self.update_bounds_for(x, y);
                proof {
                    let pre = *old(self);
                    let posts = self.spec_positions();
                    let pres = pre.spec_positions();
                    assert(self.spec_cells() =~= pre.spec_cells().insert(k0, state));
                    assert forall|i: int|
                        0 <= i < posts.len() implies self.spec_cells().dom().contains(
                        spec_key((#[trigger] posts[i]).0, posts[i].1),
                    ) by {
                        if !(newly && i == posts.len() - 1) {
                            assert(posts[i] == pres[i]);
                            assert(pre.spec_cells().dom().contains(
                                spec_key(pres[i].0, pres[i].1),
                            ));
                        }
                    }
                    assert forall|i: int|
                        0 <= i < posts.len() implies self.bounds_cover(
                        (#[trigger] posts[i]).0,
                        posts[i].1,
                    ) by {
                        if !(newly && i == posts.len() - 1) {
                            assert(posts[i] == pres[i]);
                            assert(pre.bounds_cover(pres[i].0, pres[i].1));
                        }
                    }
                    assert forall|i: int, j: int|
                        0 <= i < j < posts.len() implies spec_key(
                        (#[trigger] posts[i]).0,
                        posts[i].1,
                    ) != spec_key((#[trigger] posts[j]).0, posts[j].1) by {
                        if newly && j == posts.len() - 1 {
                            if spec_key(posts[i].0, posts[i].1) == k0 {
                                assert(pre.spec_cells().dom().contains(
                                    spec_key(pres[i].0, pres[i].1),
                                ));
                                assert(false);
                            }
                        }
                    }
                    assert forall|k: u64| #[trigger]
                        self.spec_cells().dom().contains(k) implies exists|i: int|
                        0 <= i < posts.len() && spec_key((#[trigger] posts[i]).0, posts[i].1)
                            == k by {
                        if k == k0 {
                            if newly {
                                let wi = posts.len() - 1;
                                assert(spec_key(posts[wi].0, posts[wi].1) == k);
                            } else {
                                let oi = choose|oi: int|
                                    0 <= oi < pres.len() && spec_key(
                                        (#[trigger] pres[oi]).0,
                                        pres[oi].1,
                                    ) == k;
                                assert(spec_key(posts[oi].0, posts[oi].1) == k);
                            }
                        } else {
                            let oi = choose|oi: int|
                                0 <= oi < pres.len() && spec_key(
                                    (#[trigger] pres[oi]).0,
                                    pres[oi].1,
                                ) == k;
                            assert(spec_key(posts[oi].0, posts[oi].1) == k);
                        }
                    }
                }
            },
        }
        self.version = self.version.wrapping_add(1);
        proof {
            assert forall|i: i32, j: i32|
                !(i == x && j == y) implies #[trigger] self.spec_cell(i, j) == old(self).spec_cell(
                i,
                j,
            ) by {
                if spec_key(i, j) == k0 {
                    lemma_key_injective(i, j, x, y);
                }
            }
        }
    }

    /// Set a cell to alive.
    pub fn set_alive(&mut self, x: i32, y: i32)
        requires
            old(self).wf(),
        ensures
            final(self).wf(),
            final(self).spec_cell(x, y) == CellState::Alive,
            forall|i: i32, j: i32|
                !(i == x && j == y) ==> #[trigger] final(self).spec_cell(i, j) == old(
                    self,
                ).spec_cell(i, j),
    {
        self.set(x, y, CellState::Alive);
    }

    /// Set a cell to dead.
    pub fn set_dead(&mut self, x: i32, y: i32)
        requires
            old(self).wf(),
        ensures
            final(self).wf(),
            final(self).spec_cell(x, y) == CellState::Dead,
            forall|i: i32, j: i32|
                !(i == x && j == y) ==> #[trigger] final(self).spec_cell(i, j) == old(
                    self,
                ).spec_cell(i, j),
    {
        self.set(x, y, CellState::Dead);
    }

    /// Grow the bounding box to cover `(x, y)`.
    fn update_bounds_for(&mut self, x: i32, y: i32)
        ensures
            final(self).bounds_cover(x, y),
            forall|i: i32, j: i32|
                old(self).bounds_cover(i, j) ==> #[trigger] final(self).bounds_cover(i, j),
            *final(self) == (InfiniteGrid { bounds: final(self).spec_bounds(), ..*old(self) }),
            final(self).spec_bounds() is Some,
    {
        match &mut self.bounds {
            Some(b) => {
                if x < b.min_x {
                    b.min_x = x;
                }
                if x > b.max_x {
                    b.max_x = x;
                }
                if y < b.min_y {
                    b.min_y = y;
                }
                if y > b.max_y {
                    b.max_y = y;
                }
            },
            None => {
                self.bounds = Some(GridBounds { min_x: x, max_x: x, min_y: y, max_y: y });
            },
        }
    }

    /// Whether the bounding box covers `(x, y)`.
    pub open spec fn bounds_cover(&self, x: i32, y: i32) -> bool {
        match self.spec_bounds() {
            Some(b) => b.min_x <= x <= b.max_x && b.min_y <= y <= b.max_y,
            None => false,
        }
    }

    /// The bounding box is tight: absent exactly on the empty grid, and
    /// every edge of the box is attained by a stored position (the
    /// positions are exactly the stored cells, by coherence).
    pub open spec fn bounds_tight(&self) -> bool {
        match self.spec_bounds() {
            Some(b) => {
                &&& self.spec_positions().len() > 0
                &&& (exists|i: int|
                    0 <= i < self.spec_positions().len() && (#[trigger] self.spec_positions()[i]).0
                        == b.min_x)
                &&& (exists|i: int|
                    0 <= i < self.spec_positions().len() && (#[trigger] self.spec_positions()[i]).0
                        == b.max_x)
                &&& (exists|i: int|
                    0 <= i < self.spec_positions().len() && (#[trigger] self.spec_positions()[i]).1
                        == b.min_y)
                &&& (exists|i: int|
                    0 <= i < self.spec_positions().len() && (#[trigger] self.spec_positions()[i]).1
                        == b.max_y)
            },
            None => self.spec_positions().len() == 0,
        }
    }
}

/// The version counter after one change, wrapping at the `u64` boundary.
pub open spec fn spec_next_version(v: u64) -> u64 {
    vstd::wrapping::u64_specs::wrapping_add(v, 1)
}

/// Whether the cell at `(x, y)` counts as alive.
pub open spec fn live_at(m: Map<u64, CellState>, x: i32, y: i32) -> bool {
    cell_of(m, x, y).spec_is_alive()
}

/// Number of live cells among the eight neighbours of `(x, y)`.
pub open spec fn spec_live_neighbors(m: Map<u64, CellState>, x: i32, y: i32) -> int {
    count_matching(m, x, y, |s: CellState| s.spec_is_alive())
}

/// Number of neighbours of `(x, y)` whose state satisfies `pred`.
pub open spec fn count_matching(
    m: Map<u64, CellState>,
    x: i32,
    y: i32,
    pred: spec_fn(CellState) -> bool,
) -> int {
    let xm = spec_adj(x, -1);
    let xp = spec_adj(x, 1);
    let ym = spec_adj(y, -1);
    let yp = spec_adj(y, 1);
    (if pred(cell_of(m, xm, ym)) {
        1int
    } else {
        0int
    }) + (if pred(cell_of(m, x, ym)) {
        1int
    } else {
        0int
    }) + (if pred(cell_of(m, xp, ym)) {
        1int
    } else {
        0int
    }) + (if pred(cell_of(m, xm, y)) {
        1int
    } else {
        0int
    }) + (if pred(cell_of(m, xp, y)) {
        1int
    } else {
        0int
    }) + (if pred(cell_of(m, xm, yp)) {
        1int
    } else {
        0int
    }) + (if pred(cell_of(m, x, yp)) {
        1int
    } else {
        0int
    }) + (if pred(cell_of(m, xp, yp)) {
        1int
    } else {
        0int
    })
}

/// Next state of a two-state birth/survival rule from the cell's own
/// liveness and its live-neighbour count.
pub open spec fn spec_two_state_next(rule: RuleType, alive: bool, n: int) -> CellState {
    let born = match rule {
        RuleType::Conway => n == 3,
        RuleType::HighLife => n == 3 || n == 6,
        RuleType::Seeds => n == 2,
        RuleType::Mazectric => n == 3,
        RuleType::Coral => n == 3,
        RuleType::Gnarl => n == 1,
        RuleType::Replicator => n == 1 || n == 3 || n == 5 || n == 7,
        _ => false,
    };
    let survives = match rule {
        RuleType::Conway => n == 2 || n == 3,
        RuleType::HighLife => n == 2 || n == 3,
        RuleType::Seeds => false,
        RuleType::Mazectric => 1 <= n <= 4,
        RuleType::Coral => 4 <= n <= 8,
        RuleType::Gnarl => n == 1,
        RuleType::Replicator => n == 1 || n == 3 || n == 5 || n == 7,
        _ => false,
    };
    if (alive && survives) || (!alive && born) {
        CellState::Alive
    } else {
        CellState::Dead
    }
}

/// Number of firing (alive-state) neighbours.
pub open spec fn spec_firing_neighbors(m: Map<u64, CellState>, x: i32, y: i32) -> int {
    count_matching(m, x, y, |s: CellState| s == CellState::Alive)
}

/// Number of electron-head neighbours.
pub open spec fn spec_head_neighbors(m: Map<u64, CellState>, x: i32, y: i32) -> int {
    count_matching(m, x, y, |s: CellState| s == CellState::ElectronHead)
}

/// Number of species-A neighbours.
pub open spec fn spec_species_a_neighbors(m: Map<u64, CellState>, x: i32, y: i32) -> int {
    count_matching(m, x, y, |s: CellState| s == CellState::SpeciesA)
}

/// Number of species-B neighbours.
pub open spec fn spec_species_b_neighbors(m: Map<u64, CellState>, x: i32, y: i32) -> int {
    count_matching(m, x, y, |s: CellState| s == CellState::SpeciesB)
}

/// Next state under Brian's Brain: dead cells fire on exactly two firing
/// neighbours, firing cells turn refractory, refractory cells die.
pub open spec fn spec_brian_next(m: Map<u64, CellState>, x: i32, y: i32) -> CellState {
    let firing = spec_firing_neighbors(m, x, y);
    match cell_of(m, x, y) {
        CellState::Dead => if firing == 2 {
            CellState::Alive
        } else {
            CellState::Dead
        },
        CellState::Alive => CellState::Dying,
        CellState::Dying => CellState::Dead,
        _ => CellState::Dead,
    }
}

/// Next state under WireWorld: wire conducts an electron head on one or two
/// neighbouring heads; heads become tails, tails become wire.
pub open spec fn spec_wire_next(m: Map<u64, CellState>, x: i32, y: i32) -> CellState {
    let heads = spec_head_neighbors(m, x, y);
    match cell_of(m, x, y) {
        CellState::Wire => if heads == 1 || heads == 2 {
            CellState::ElectronHead
        } else {
            CellState::Wire
        },
        CellState::ElectronHead => CellState::ElectronTail,
        CellState::ElectronTail => CellState::Wire,
        _ => CellState::Dead,
    }
}

/// Next state under Immigration: Conway counts over both species, births go
/// to the majority species with a positional tie-break.
pub open spec fn spec_immigration_next(m: Map<u64, CellState>, x: i32, y: i32) -> CellState {
    let a = spec_species_a_neighbors(m, x, y);
    let b = spec_species_b_neighbors(m, x, y);
    let total = a + b;
    match cell_of(m, x, y) {
        CellState::SpeciesA => if total == 2 || total == 3 {
            CellState::SpeciesA
        } else {
            CellState::Dead
        },
        CellState::SpeciesB => if total == 2 || total == 3 {
            CellState::SpeciesB
        } else {
            CellState::Dead
        },
        CellState::Dead => if total == 3 {
            if a > b {
                CellState::SpeciesA
            } else if b > a {
                CellState::SpeciesB
            } else if (x as int + y as int) % 2 == 0 {
                CellState::SpeciesA
            } else {
                CellState::SpeciesB
            }
        } else {
            CellState::Dead
        },
        state => state,
    }
}

/// Next state of `(x, y)` under the given rule.
#[verifier::opaque]
pub open spec fn spec_rule_next(rule: RuleType, m: Map<u64, CellState>, x: i32, y: i32) -> CellState {
    match rule {
        RuleType::Brian => spec_brian_next(m, x, y),
        RuleType::WireWorld => spec_wire_next(m, x, y),
        RuleType::Immigration => spec_immigration_next(m, x, y),
        _ => spec_two_state_next(rule, live_at(m, x, y), spec_live_neighbors(m, x, y)),
    }
}

/// A cell whose next state is not dead has a stored cell somewhere in its
/// own 3-by-3 neighbourhood; this is what makes the candidate scan over the
/// stored cells' neighbourhoods complete.
proof fn lemma_rule_support(rule: RuleType, m: Map<u64, CellState>, x: i32, y: i32)
    requires
        spec_rule_next(rule, m, x, y) != CellState::Dead,
    ensures
        exists|dx: int, dy: int|
            -1 <= dx <= 1 && -1 <= dy <= 1 && #[trigger] m.dom().contains(
                spec_key(spec_adj(x, dx), spec_adj(y, dy)),
            ),
{
    reveal(spec_rule_next);
    if m.dom().contains(spec_key(x, y)) {
        assert(spec_adj(x, 0) == x && spec_adj(y, 0) == y);
        assert(-1 <= 0 <= 1 && -1 <= 0 <= 1 && m.dom().contains(
            spec_key(spec_adj(x, 0int), spec_adj(y, 0int)),
        ));
    } else {
        assert(cell_of(m, x, y) == CellState::Dead);
        if forall|dx: int, dy: int|
            -1 <= dx <= 1 && -1 <= dy <= 1 ==> !(#[trigger] m.dom().contains(
                spec_key(spec_adj(x, dx), spec_adj(y, dy)),
            )) {
            assert forall|dx: int, dy: int|
                -1 <= dx <= 1 && -1 <= dy <= 1 implies #[trigger] cell_of(
                m,
                spec_adj(x, dx),
                spec_adj(y, dy),
            ) == CellState::Dead by {
                assert(!m.dom().contains(spec_key(spec_adj(x, dx), spec_adj(y, dy))));
            }
            assert(cell_of(m, spec_adj(x, -1), spec_adj(y, -1)) == CellState::Dead);
            assert(cell_of(m, spec_adj(x, 0), spec_adj(y, -1)) == CellState::Dead);
            assert(cell_of(m, spec_adj(x, 1), spec_adj(y, -1)) == CellState::Dead);
            assert(cell_of(m, spec_adj(x, -1), spec_adj(y, 0)) == CellState::Dead);
            assert(cell_of(m, spec_adj(x, 1), spec_adj(y, 0)) == CellState::Dead);
            assert(cell_of(m, spec_adj(x, -1), spec_adj(y, 1)) == CellState::Dead);
            assert(cell_of(m, spec_adj(x, 0), spec_adj(y, 1)) == CellState::Dead);
            assert(cell_of(m, spec_adj(x, 1), spec_adj(y, 1)) == CellState::Dead);
            assert(spec_rule_next(rule, m, x, y) == CellState::Dead);
            assert(false);
        }
    }
}

/// Pack coordinates into the map key.
fn pack_key(x: i32, y: i32) -> (r: u64)
    ensures
        r == spec_key(x, y),
{
    (x as u32 as u64) * 0x1_0000_0000 + (y as u32 as u64)
}

/// Index of the entry keyed like `(x, y)`; the caller guarantees there is
/// one.
fn find_position(v: &Vec<(i32, i32)>, x: i32, y: i32) -> (r: usize)
    requires
        exists|i: int|
            0 <= i < v@.len() && spec_key((#[trigger] v@[i]).0, v@[i].1) == spec_key(x, y),
    ensures
        r < v@.len(),
        spec_key(v@[r as int].0, v@[r as int].1) == spec_key(x, y),
{
    let key = pack_key(x, y);
    let mut i: usize = 0;
    while i < v.len()
        invariant
            key == spec_key(x, y),
            i <= v@.len(),
            exists|j: int|
                0 <= j < v@.len() && spec_key((#[trigger] v@[j]).0, v@[j].1) == spec_key(x, y),
            forall|j: int|
                0 <= j < i ==> spec_key((#[trigger] v@[j]).0, v@[j].1) != spec_key(x, y),
        decreases v@.len() - i,
    {
        let (px, py) = v[i];
        proof {
            assert(px == v@[i as int].0 && py == v@[i as int].1);
        }
        if pack_key(px, py) == key {
            return i;
        }
        i += 1;
    }
    proof {
        assert(false);
    }
    0
}

/// Coherence of a candidate map and its position list, as kept during a
/// stepping pass.
pub open spec fn coherent(m: Map<u64, CellState>, s: Seq<(i32, i32)>) -> bool {
    &&& forall|k: u64| m.dom().contains(k) ==> #[trigger] m[k] != CellState::Dead
    &&& forall|i: int|
        0 <= i < s.len() ==> m.dom().contains(spec_key((#[trigger] s[i]).0, s[i].1))
    &&& forall|i: int, j: int|
        0 <= i < j < s.len() ==> spec_key((#[trigger] s[i]).0, s[i].1) != spec_key(
            (#[trigger] s[j]).0,
            s[j].1,
        )
    &&& forall|k: u64|
        #[trigger] m.dom().contains(k) ==> exists|i: int|
            0 <= i < s.len() && spec_key((#[trigger] s[i]).0, s[i].1) == k
}

/// A candidate cell has been handled: if its next state is not dead, the
/// new map stores it.
pub open spec fn spec_candidate_done(
    rule: RuleType,
    om: Map<u64, CellState>,
    nm: Map<u64, CellState>,
    x: i32,
    y: i32,
) -> bool {
    spec_rule_next(rule, om, x, y) != CellState::Dead ==> nm.dom().contains(spec_key(x, y))
}

/// All nine candidates around a stored cell have been handled.
pub open spec fn spec_covered(
    rule: RuleType,
    om: Map<u64, CellState>,
    nm: Map<u64, CellState>,
    p: (i32, i32),
) -> bool {
    &&& spec_candidate_done(rule, om, nm, spec_adj(p.0, -1), spec_adj(p.1, -1))
    &&& spec_candidate_done(rule, om, nm, spec_adj(p.0, 0), spec_adj(p.1, -1))
    &&& spec_candidate_done(rule, om, nm, spec_adj(p.0, 1), spec_adj(p.1, -1))
    &&& spec_candidate_done(rule, om, nm, spec_adj(p.0, -1), spec_adj(p.1, 0))
    &&& spec_candidate_done(rule, om, nm, spec_adj(p.0, 0), spec_adj(p.1, 0))
    &&& spec_candidate_done(rule, om, nm, spec_adj(p.0, 1), spec_adj(p.1, 0))
    &&& spec_candidate_done(rule, om, nm, spec_adj(p.0, -1), spec_adj(p.1, 1))
    &&& spec_candidate_done(rule, om, nm, spec_adj(p.0, 0), spec_adj(p.1, 1))
    &&& spec_candidate_done(rule, om, nm, spec_adj(p.0, 1), spec_adj(p.1, 1))
}

impl InfiniteGrid {
    /// Count live neighbours around a cell.
    pub fn count_neighbors(&self, x: i32, y: i32) -> (r: u8)
        requires
            self.wf(),
        ensures
            r == spec_live_neighbors(self.spec_cells(), x, y),
    {
        let xm = adj(x, -1);
        let xp = adj(x, 1);
        let ym = adj(y, -1);
        let yp = adj(y, 1);
        let mut count: u8 = 0;
        if self.is_alive(xm, ym) {
            count += 1;
        }
        if self.is_alive(x, ym) {
            count += 1;
        }
        if self.is_alive(xp, ym) {
            count += 1;
        }
        if self.is_alive(xm, y) {
            count += 1;
        }
        if self.is_alive(xp, y) {
            count += 1;
        }
        if self.is_alive(xm, yp) {
            count += 1;
        }
        if self.is_alive(x, yp) {
            count += 1;
        }
        if self.is_alive(xp, yp) {
            count += 1;
        }
        count
    }

    /// Count neighbours in exactly the given state.
    #[verifier::rlimit(100)]
    #[verifier::spinoff_prover]
    fn count_in_state(&self, x: i32, y: i32, state: CellState) -> (r: u8)
        requires
            self.wf(),
        ensures
            state == CellState::Alive ==> r == spec_firing_neighbors(self.spec_cells(), x, y),
            state == CellState::ElectronHead ==> r == spec_head_neighbors(self.spec_cells(), x, y),
            state == CellState::SpeciesA ==> r == spec_species_a_neighbors(self.spec_cells(), x, y),
            state == CellState::SpeciesB ==> r == spec_species_b_neighbors(self.spec_cells(), x, y),
    {
        let xm = adj(x, -1);
        let xp = adj(x, 1);
        let ym = adj(y, -1);
        let yp = adj(y, 1);
        let mut count: u8 = 0;
        if self.get(xm, ym) == state {
            count += 1;
        }
        if self.get(x, ym) == state {
            count += 1;
        }
        if self.get(xp, ym) == state {
            count += 1;
        }
        if self.get(xm, y) == state {
            count += 1;
        }
        if self.get(xp, y) == state {
            count += 1;
        }
        if self.get(xm, yp) == state {
            count += 1;
        }
        if self.get(x, yp) == state {
            count += 1;
        }
        if self.get(xp, yp) == state {
            count += 1;
        }
        count
    }

    /// Next state of `(x, y)` under the given rule.
    fn rule_next(&self, rule: RuleType, x: i32, y: i32) -> (r: CellState)
        requires
            self.wf(),
        ensures
            r == spec_rule_next(rule, self.spec_cells(), x, y),
    {
        proof {
            reveal(spec_rule_next);
        }
        match rule {
            RuleType::Conway => self.life_next(rule, x, y),
            RuleType::HighLife => self.life_next(rule, x, y),
            RuleType::Seeds => self.life_next(rule, x, y),
            RuleType::Brian => {
                let firing = self.count_in_state(x, y, CellState::Alive);
                match self.get(x, y) {
                    CellState::Dead => if firing == 2 {
                        CellState::Alive
                    } else {
                        CellState::Dead
                    },
                    CellState::Alive => CellState::Dying,
                    CellState::Dying => CellState::Dead,
                    _ => CellState::Dead,
                }
            },
            RuleType::WireWorld => {
                let heads = self.count_in_state(x, y, CellState::ElectronHead);
                match self.get(x, y) {
                    CellState::Wire => if heads == 1 || heads == 2 {
                        CellState::ElectronHead
                    } else {
                        CellState::Wire
                    },
                    CellState::ElectronHead => CellState::ElectronTail,
                    CellState::ElectronTail => CellState::Wire,
                    _ => CellState::Dead,
                }
            },
            RuleType::Immigration => {
                let a = self.count_in_state(x, y, CellState::SpeciesA);
                let b = self.count_in_state(x, y, CellState::SpeciesB);
                let total = a + b;
                match self.get(x, y) {
                    CellState::SpeciesA => if total == 2 || total == 3 {
                        CellState::SpeciesA
                    } else {
                        CellState::Dead
                    },
                    CellState::SpeciesB => if total == 2 || total == 3 {
                        CellState::SpeciesB
                    } else {
                        CellState::Dead
                    },
                    CellState::Dead => if total == 3 {
                        if a > b {
                            CellState::SpeciesA
                        } else if b > a {
                            CellState::SpeciesB
                        } else if ((x as i64) + (y as i64)) % 2 == 0 {
                            CellState::SpeciesA
                        } else {
                            CellState::SpeciesB
                        }
                    } else {
                        CellState::Dead
                    },
                    state => state,
                }
            },
            RuleType::Mazectric => self.life_next(rule, x, y),
            RuleType::Coral => self.life_next(rule, x, y),
            RuleType::Gnarl => self.life_next(rule, x, y),
            RuleType::Replicator => self.life_next(rule, x, y),
        }
    }

    /// Next state under a two-state birth/survival rule.
    fn life_next(&self, rule: RuleType, x: i32, y: i32) -> (r: CellState)
        requires
            self.wf(),
        ensures
            r == spec_two_state_next(
                rule,
                live_at(self.spec_cells(), x, y),
                spec_live_neighbors(self.spec_cells(), x, y),
            ),
    {
        let n = self.count_neighbors(x, y);
        let alive = self.is_alive(x, y);
        let born = match rule {
            RuleType::Conway => n == 3,
            RuleType::HighLife => n == 3 || n == 6,
            RuleType::Seeds => n == 2,
            RuleType::Mazectric => n == 3,
            RuleType::Coral => n == 3,
            RuleType::Gnarl => n == 1,
            RuleType::Replicator => n == 1 || n == 3 || n == 5 || n == 7,
            _ => false,
        };
        let survives = match rule {
            RuleType::Conway => n == 2 || n == 3,
            RuleType::HighLife => n == 2 || n == 3,
            RuleType::Seeds => false,
            RuleType::Mazectric => 1 <= n && n <= 4,
            RuleType::Coral => 4 <= n && n <= 8,
            RuleType::Gnarl => n == 1,
            RuleType::Replicator => n == 1 || n == 3 || n == 5 || n == 7,
            _ => false,
        };
        if (alive && survives) || (!alive && born) {
            CellState::Alive
        } else {
            CellState::Dead
        }
    }

    /// Advance the whole grid one generation under the given rule. The new
    /// state replaces the old one wholesale.
    #[verifier::rlimit(100)]
    #[verifier::spinoff_prover]
    fn step_rule(&mut self, rule: RuleType)
        requires
            old(self).wf(),
        ensures
            final(self).wf(),
            forall|x: i32, y: i32| #[trigger]
                final(self).spec_cell(x, y) == spec_rule_next(rule, old(self).spec_cells(), x, y),
            final(self).spec_version() == spec_next_version(old(self).spec_version()),
            final(self).bounds_tight(),
    {
        let ghost om = self.spec_cells();
        let mut new_map: HashMap<u64, CellState> = HashMap::new();
        let mut new_pos: Vec<(i32, i32)> = Vec::new();
        let n = self.cached_alive_positions.len();
        let mut i: usize = 0;
        while i < n
            invariant
                self.wf(),
                om == self.spec_cells(),
                n == self.spec_positions().len(),
                vstd::std_specs::hash::obeys_key_model::<u64>(),
                i <= n,
                coherent(new_map@, new_pos@),
                forall|x: i32, y: i32|
                    new_map@.dom().contains(spec_key(x, y)) ==> #[trigger] new_map@[spec_key(
                        x,
                        y,
                    )] == spec_rule_next(rule, om, x, y),
                forall|j: int|
                    0 <= j < i ==> spec_covered(
                        rule,
                        om,
                        new_map@,
                        #[trigger] self.spec_positions()[j],
                    ),
            decreases n - i,
        {
            let (px, py) = self.cached_alive_positions[i];
            let ghost before = new_map@;
            process_candidate(self, &mut new_map, &mut new_pos, rule, adj(px, -1), adj(py, -1));
            process_candidate(self, &mut new_map, &mut new_pos, rule, adj(px, 0), adj(py, -1));
            process_candidate(self, &mut new_map, &mut new_pos, rule, adj(px, 1), adj(py, -1));
            process_candidate(self, &mut new_map, &mut new_pos, rule, adj(px, -1), adj(py, 0));
            process_candidate(self, &mut new_map, &mut new_pos, rule, adj(px, 0), adj(py, 0));
            process_candidate(self, &mut new_map, &mut new_pos, rule, adj(px, 1), adj(py, 0));
            process_candidate(self, &mut new_map, &mut new_pos, rule, adj(px, -1), adj(py, 1));
            process_candidate(self, &mut new_map, &mut new_pos, rule, adj(px, 0), adj(py, 1));
            process_candidate(self, &mut new_map, &mut new_pos, rule, adj(px, 1), adj(py, 1));
            i += 1;
        }
        let ghost nm_view = new_map@;
        let ghost np_view = new_pos@;
        self.alive_cells = new_map;
        self.cached_alive_positions = new_pos;
        self.recalculate_bounds();
        proof {
            assert(match self.spec_bounds() {
                Some(b) => forall|i: int|
                    0 <= i < self.spec_positions().len() ==> b.min_x <= (
                    #[trigger] self.spec_positions()[i]).0 <= b.max_x && b.min_y
                        <= self.spec_positions()[i].1 <= b.max_y,
                None => self.spec_positions().len() == 0,
            });
        }
        self.version = self.version.wrapping_add(1);
        proof {
            assert forall|k: u64| #[trigger]
                self.spec_cells().dom().contains(k) implies exists|i: int|
                0 <= i < self.spec_positions().len() && spec_key(
                    (#[trigger] self.spec_positions()[i]).0,
                    self.spec_positions()[i].1,
                ) == k by {
                let i = choose|i: int|
                    0 <= i < np_view.len() && spec_key(
                        (#[trigger] np_view[i]).0,
                        np_view[i].1,
                    ) == k;
                assert(spec_key(self.spec_positions()[i].0, self.spec_positions()[i].1) == k);
            }
        }
        proof {
            assert forall|x: i32, y: i32| #[trigger]
                self.spec_cell(x, y) == spec_rule_next(rule, om, x, y) by {
                let next = spec_rule_next(rule, om, x, y);
                if next != CellState::Dead {
                    lemma_rule_support(rule, om, x, y);
                    let (dx, dy) = choose|dx: int, dy: int|
                        -1 <= dx <= 1 && -1 <= dy <= 1 && #[trigger] om.dom().contains(
                            spec_key(spec_adj(x, dx), spec_adj(y, dy)),
                        );
                    let sk = spec_key(spec_adj(x, dx), spec_adj(y, dy));
                    let j = choose|j: int|
                        0 <= j < old(self).spec_positions().len() && spec_key(
                            (#[trigger] old(self).spec_positions()[j]).0,
                            old(self).spec_positions()[j].1,
                        ) == sk;
                    let p = old(self).spec_positions()[j];
                    lemma_key_injective(p.0, p.1, spec_adj(x, dx), spec_adj(y, dy));
                    lemma_adj_inverse(x, dx);
                    lemma_adj_inverse(y, dy);
                    assert(x == spec_adj(p.0, -dx) && y == spec_adj(p.1, -dy));
                    assert(spec_covered(rule, om, self.spec_cells(), p));
                    assert(self.spec_cells().dom().contains(spec_key(x, y)));
                } else {
                    if self.spec_cells().dom().contains(spec_key(x, y)) {
                        assert(self.spec_cells()[spec_key(x, y)] == next);
                        assert(false);
                    }
                }
            }
        }
    }

    /// Recompute the bounding box from the stored positions.
    fn recalculate_bounds(&mut self)
        ensures
            *final(self) == (InfiniteGrid { bounds: final(self).spec_bounds(), ..*old(self) }),
            match final(self).spec_bounds() {
                Some(b) => forall|i: int|
                    0 <= i < final(self).spec_positions().len() ==> b.min_x
                        <= (#[trigger] final(self).spec_positions()[i]).0 <= b.max_x && b.min_y
                        <= final(self).spec_positions()[i].1 <= b.max_y,
                None => final(self).spec_positions().len() == 0,
            },
            final(self).bounds_tight(),
    {
        let n = self.cached_alive_positions.len();
        if n == 0 {
            self.bounds = None;
            return ;
        }
        let (x0, y0) = self.cached_alive_positions[0];
        let mut min_x = x0;
        let mut max_x = x0;
        let mut min_y = y0;
        let mut max_y = y0;
        let mut i: usize = 1;
        while i < n
            invariant
                *self == *old(self),
                n == self.spec_positions().len(),
                1 <= i <= n,
                min_x <= max_x,
                min_y <= max_y,
                forall|j: int|
                    0 <= j < i ==> min_x <= (#[trigger] self.spec_positions()[j]).0 <= max_x
                        && min_y <= self.spec_positions()[j].1 <= max_y,
                exists|j: int|
                    0 <= j < i && (#[trigger] self.spec_positions()[j]).0 == min_x,
                exists|j: int|
                    0 <= j < i && (#[trigger] self.spec_positions()[j]).0 == max_x,
                exists|j: int|
                    0 <= j < i && (#[trigger] self.spec_positions()[j]).1 == min_y,
                exists|j: int|
                    0 <= j < i && (#[trigger] self.spec_positions()[j]).1 == max_y,
            decreases n - i,
        {
            let (x, y) = self.cached_alive_positions[i];
            if x < min_x {
                min_x = x;
            }
            if x > max_x {
                max_x = x;
            }
            if y < min_y {
                min_y = y;
            }
            if y > max_y {
                max_y = y;
            }
            i += 1;
        }
        self.bounds = Some(GridBounds { min_x, max_x, min_y, max_y });
    }

    /// Update the grid based on the specified rule type.
    pub fn update(&mut self, rule: RuleType)
        requires
            old(self).wf(),
        ensures
            final(self).wf(),
            forall|x: i32, y: i32| #[trigger]
                final(self).spec_cell(x, y) == spec_rule_next(rule, old(self).spec_cells(), x, y),
            final(self).spec_version() == spec_next_version(old(self).spec_version()),
            final(self).bounds_tight(),
    {
        match rule {
            RuleType::Conway => self.step_conway(),
            RuleType::HighLife => self.step_highlife(),
            RuleType::Seeds => self.step_seeds(),
            RuleType::Brian => self.step_brian_brain(),
            RuleType::WireWorld => self.step_wireworld(),
            RuleType::Immigration => self.step_immigration(),
            RuleType::Mazectric => self.step_mazectric(),
            RuleType::Coral => self.step_coral(),
            RuleType::Gnarl => self.step_gnarl(),
            RuleType::Replicator => self.step_replicator(),
        }
    }

    /// Advance one generation under Conway's rule (B3/S23).
    pub fn step_conway(&mut self)
        requires
            old(self).wf(),
        ensures
            final(self).wf(),
            forall|x: i32, y: i32| #[trigger]
                final(self).spec_cell(x, y) == spec_rule_next(
                    RuleType::Conway,
                    old(self).spec_cells(),
                    x,
                    y,
                ),
            final(self).spec_version() == spec_next_version(old(self).spec_version()),
            final(self).bounds_tight(),
    {
        self.step_rule(RuleType::Conway);
    }

    /// Advance one generation under HighLife (B36/S23).
    pub fn step_highlife(&mut self)
        requires
            old(self).wf(),
        ensures
            final(self).wf(),
            forall|x: i32, y: i32| #[trigger]
                final(self).spec_cell(x, y) == spec_rule_next(
                    RuleType::HighLife,
                    old(self).spec_cells(),
                    x,
                    y,
                ),
            final(self).spec_version() == spec_next_version(old(self).spec_version()),
            final(self).bounds_tight(),
    {
        self.step_rule(RuleType::HighLife);
    }

    /// Advance one generation under Seeds (B2/S0).
    pub fn step_seeds(&mut self)
        requires
            old(self).wf(),
        ensures
            final(self).wf(),
            forall|x: i32, y: i32| #[trigger]
                final(self).spec_cell(x, y) == spec_rule_next(
                    RuleType::Seeds,
                    old(self).spec_cells(),
                    x,
                    y,
                ),
            final(self).spec_version() == spec_next_version(old(self).spec_version()),
            final(self).bounds_tight(),
    {
        self.step_rule(RuleType::Seeds);
    }

    /// Advance one generation under Brian's Brain.
    pub fn step_brian_brain(&mut self)
        requires
            old(self).wf(),
        ensures
            final(self).wf(),
            forall|x: i32, y: i32| #[trigger]
                final(self).spec_cell(x, y) == spec_rule_next(
                    RuleType::Brian,
                    old(self).spec_cells(),
                    x,
                    y,
                ),
            final(self).spec_version() == spec_next_version(old(self).spec_version()),
            final(self).bounds_tight(),
    {
        self.step_rule(RuleType::Brian);
    }

    /// Advance one generation under WireWorld.
    pub fn step_wireworld(&mut self)
        requires
            old(self).wf(),
        ensures
            final(self).wf(),
            forall|x: i32, y: i32| #[trigger]
                final(self).spec_cell(x, y) == spec_rule_next(
                    RuleType::WireWorld,
                    old(self).spec_cells(),
                    x,
                    y,
                ),
            final(self).spec_version() == spec_next_version(old(self).spec_version()),
            final(self).bounds_tight(),
    {
        self.step_rule(RuleType::WireWorld);
    }

    /// Advance one generation under Immigration.
    pub fn step_immigration(&mut self)
        requires
            old(self).wf(),
        ensures
            final(self).wf(),
            forall|x: i32, y: i32| #[trigger]
                final(self).spec_cell(x, y) == spec_rule_next(
                    RuleType::Immigration,
                    old(self).spec_cells(),
                    x,
                    y,
                ),
            final(self).spec_version() == spec_next_version(old(self).spec_version()),
            final(self).bounds_tight(),
    {
        self.step_rule(RuleType::Immigration);
    }

    /// Advance one generation under Mazectric (B3/S1234).
    pub fn step_mazectric(&mut self)
        requires
            old(self).wf(),
        ensures
            final(self).wf(),
            forall|x: i32, y: i32| #[trigger]
                final(self).spec_cell(x, y) == spec_rule_next(
                    RuleType::Mazectric,
                    old(self).spec_cells(),
                    x,
                    y,
                ),
            final(self).spec_version() == spec_next_version(old(self).spec_version()),
            final(self).bounds_tight(),
    {
        self.step_rule(RuleType::Mazectric);
    }

    /// Advance one generation under Coral (B3/S45678).
    pub fn step_coral(&mut self)
        requires
            old(self).wf(),
        ensures
            final(self).wf(),
            forall|x: i32, y: i32| #[trigger]
                final(self).spec_cell(x, y) == spec_rule_next(
                    RuleType::Coral,
                    old(self).spec_cells(),
                    x,
                    y,
                ),
            final(self).spec_version() == spec_next_version(old(self).spec_version()),
            final(self).bounds_tight(),
    {
        self.step_rule(RuleType::Coral);
    }

    /// Advance one generation under Gnarl (B1/S1).
    pub fn step_gnarl(&mut self)
        requires
            old(self).wf(),
        ensures
            final(self).wf(),
            forall|x: i32, y: i32| #[trigger]
                final(self).spec_cell(x, y) == spec_rule_next(
                    RuleType::Gnarl,
                    old(self).spec_cells(),
                    x,
                    y,
                ),
            final(self).spec_version() == spec_next_version(old(self).spec_version()),
            final(self).bounds_tight(),
    {
        self.step_rule(RuleType::Gnarl);
    }

    /// Advance one generation under Replicator (B1357/S1357).
    pub fn step_replicator(&mut self)
        requires
            old(self).wf(),
        ensures
            final(self).wf(),
            forall|x: i32, y: i32| #[trigger]
                final(self).spec_cell(x, y) == spec_rule_next(
                    RuleType::Replicator,
                    old(self).spec_cells(),
                    x,
                    y,
                ),
            final(self).spec_version() == spec_next_version(old(self).spec_version()),
            final(self).bounds_tight(),
    {
        self.step_rule(RuleType::Replicator);
    }

    /// Insert a pattern of live cells at the given offset: every offset
    /// pattern cell becomes alive (offsets wrap at the `i32` boundary) and
    /// every other cell keeps its state.
    pub fn insert_pattern(&mut self, pattern: &Vec<(i32, i32)>, offset_x: i32, offset_y: i32)
        requires
            old(self).wf(),
        ensures
            final(self).wf(),
            forall|k: int|
                0 <= k < pattern@.len() ==> final(self).spec_cell(
                    vstd::wrapping::i32_specs::wrapping_add(offset_x, (#[trigger] pattern@[k]).0),
                    vstd::wrapping::i32_specs::wrapping_add(offset_y, pattern@[k].1),
                ) == CellState::Alive,
            forall|x: i32, y: i32|
                (forall|k: int|
                    0 <= k < pattern@.len() ==> !(x == vstd::wrapping::i32_specs::wrapping_add(
                        offset_x,
                        (#[trigger] pattern@[k]).0,
                    ) && y == vstd::wrapping::i32_specs::wrapping_add(offset_y, pattern@[k].1)))
                    ==> #[trigger] final(self).spec_cell(x, y) == old(self).spec_cell(x, y),
    {
        let mut i: usize = 0;
        while i < pattern.len()
            invariant
                self.wf(),
                i <= pattern@.len(),
                forall|k: int|
                    0 <= k < i ==> self.spec_cell(
                        vstd::wrapping::i32_specs::wrapping_add(
                            offset_x,
                            (#[trigger] pattern@[k]).0,
                        ),
                        vstd::wrapping::i32_specs::wrapping_add(offset_y, pattern@[k].1),
                    ) == CellState::Alive,
                forall|x: i32, y: i32|
                    (forall|k: int|
                        0 <= k < i ==> !(x == vstd::wrapping::i32_specs::wrapping_add(
                            offset_x,
                            (#[trigger] pattern@[k]).0,
                        ) && y == vstd::wrapping::i32_specs::wrapping_add(offset_y, pattern@[k].1)))
                        ==> #[trigger] self.spec_cell(x, y) == old(self).spec_cell(x, y),
            decreases pattern@.len() - i,
        {
            let (x, y) = pattern[i];
            self.set(offset_x.wrapping_add(x), offset_y.wrapping_add(y), CellState::Alive);
            i += 1;
        }
    }

    /// The stored cells inside a rectangular region (for rendering).
    pub fn cells_in_region(&self, min_x: i32, max_x: i32, min_y: i32, max_y: i32) -> (r: Vec<
        (i32, i32),
    >)
        requires
            self.wf(),
        ensures
            forall|k: int|
                0 <= k < r@.len() ==> min_x <= (#[trigger] r@[k]).0 <= max_x && min_y <= r@[k].1
                    <= max_y && self.spec_cell(r@[k].0, r@[k].1) != CellState::Dead,
            forall|j: int|
                0 <= j < self.spec_positions().len() && min_x <= (
                #[trigger] self.spec_positions()[j]).0 <= max_x && min_y
                    <= self.spec_positions()[j].1 <= max_y ==> r@.contains(
                    self.spec_positions()[j],
                ),
            forall|a: int, b: int| 0 <= a < b < r@.len() ==> #[trigger] r@[a] != #[trigger] r@[b],
    {
        let mut out: Vec<(i32, i32)> = Vec::new();
        let n = self.cached_alive_positions.len();
        let mut i: usize = 0;
        while i < n
            invariant
                self.wf(),
                n == self.spec_positions().len(),
                i <= n,
                forall|k: int|
                    0 <= k < out@.len() ==> min_x <= (#[trigger] out@[k]).0 <= max_x && min_y
                        <= out@[k].1 <= max_y && self.spec_cell(out@[k].0, out@[k].1)
                        != CellState::Dead,
                forall|j: int|
                    0 <= j < i && min_x <= (#[trigger] self.spec_positions()[j]).0 <= max_x
                        && min_y <= self.spec_positions()[j].1 <= max_y ==> out@.contains(
                        self.spec_positions()[j],
                    ),
                forall|a: int, b: int|
                    0 <= a < b < out@.len() ==> #[trigger] out@[a] != #[trigger] out@[b],
                forall|a: int|
                    0 <= a < out@.len() ==> exists|j: int|
                        0 <= j < i && #[trigger] out@[a] == self.spec_positions()[j],
            decreases n - i,
        {
            let (x, y) = self.cached_alive_positions[i];
            let ghost out0 = out@;
            if x >= min_x && x <= max_x && y >= min_y && y <= max_y {
                out.push((x, y));
                proof {
                    assert(self.spec_cells().dom().contains(spec_key(x, y)));
                    assert(out@.last() == (x, y));
                    assert forall|a: int, b: int|
                        0 <= a < b < out@.len() implies #[trigger] out@[a] != #[trigger] out@[b] by {
                        if b == out@.len() - 1 {
                            let ja = choose|j: int|
                                0 <= j < i && #[trigger] out0[a] == self.spec_positions()[j];
                            if out@[a] == out@[b] {
                                assert(self.spec_positions()[ja] == self.spec_positions()[i as int]);
                                assert(spec_key(
                                    self.spec_positions()[ja].0,
                                    self.spec_positions()[ja].1,
                                ) != spec_key(x, y));
                                assert(false);
                            }
                        }
                    }
                    assert forall|a: int|
                        0 <= a < out@.len() implies exists|j: int|
                        0 <= j < i + 1 && #[trigger] out@[a] == self.spec_positions()[j] by {
                        if a < out@.len() - 1 {
                            let ja = choose|j: int|
                                0 <= j < i && #[trigger] out0[a] == self.spec_positions()[j];
                            assert(out@[a] == self.spec_positions()[ja]);
                        } else {
                            assert(out@[a] == self.spec_positions()[i as int]);
                        }
                    }
                    assert forall|j: int|
                        0 <= j < i + 1 && min_x <= (#[trigger] self.spec_positions()[j]).0
                            <= max_x && min_y <= self.spec_positions()[j].1
                            <= max_y implies out@.contains(self.spec_positions()[j]) by {
                        if j < i {
                            let k = choose|k: int|
                                0 <= k < out0.len() && out0[k] == self.spec_positions()[j];
                            assert(out@[k] == self.spec_positions()[j]);
                        } else {
                            assert(out@[out@.len() - 1] == self.spec_positions()[j]);
                        }
                    }
                }
            }
            i += 1;
        }
        out
    }
}

/// Evaluate one candidate cell during a stepping pass: if its next state is
/// not dead and it is not yet stored, store it and record its position.
fn process_candidate(
    g: &InfiniteGrid,
    nm: &mut HashMap<u64, CellState>,
    nv: &mut Vec<(i32, i32)>,
    rule: RuleType,
    cx: i32,
    cy: i32,
)
    requires
        g.wf(),
        coherent(old(nm)@, old(nv)@),
        forall|x: i32, y: i32|
            old(nm)@.dom().contains(spec_key(x, y)) ==> #[trigger] old(nm)@[spec_key(x, y)]
                == spec_rule_next(rule, g.spec_cells(), x, y),
    ensures
        coherent(final(nm)@, final(nv)@),
        forall|x: i32, y: i32|
            final(nm)@.dom().contains(spec_key(x, y)) ==> #[trigger] final(nm)@[spec_key(x, y)]
                == spec_rule_next(rule, g.spec_cells(), x, y),
        forall|k: u64| old(nm)@.dom().contains(k) ==> #[trigger] final(nm)@.dom().contains(k),
        spec_candidate_done(rule, g.spec_cells(), final(nm)@, cx, cy),
{
    let next = g.rule_next(rule, cx, cy);
    if next == CellState::Dead {
        return ;
    }
    let key = pack_key(cx, cy);
    if nm.contains_key(&key) {
        return ;
    }
    nm.insert(key, next);
    nv.push((cx, cy));
    proof {
        let k0 = spec_key(cx, cy);
        let pres = old(nv)@;
        let posts = nv@;
        assert(nm@ =~= old(nm)@.insert(k0, next));
        assert forall|x: i32, y: i32|
            nm@.dom().contains(spec_key(x, y)) implies #[trigger] nm@[spec_key(x, y)]
            == spec_rule_next(rule, g.spec_cells(), x, y) by {
            if spec_key(x, y) == k0 {
                lemma_key_injective(x, y, cx, cy);
            }
        }
        assert forall|i: int, j: int|
            0 <= i < j < posts.len() implies spec_key((#[trigger] posts[i]).0, posts[i].1)
            != spec_key((#[trigger] posts[j]).0, posts[j].1) by {
            if j == posts.len() - 1 {
                if spec_key(posts[i].0, posts[i].1) == k0 {
                    assert(old(nm)@.dom().contains(spec_key(pres[i].0, pres[i].1)));
                    assert(false);
                }
            }
        }
        assert forall|k: u64| #[trigger] nm@.dom().contains(k) implies exists|i: int|
            0 <= i < posts.len() && spec_key((#[trigger] posts[i]).0, posts[i].1) == k by {
            if k == k0 {
                let wi = posts.len() - 1;
                assert(spec_key(posts[wi].0, posts[wi].1) == k);
            } else {
                let oi = choose|oi: int|
                    0 <= oi < pres.len() && spec_key((#[trigger] pres[oi]).0, pres[oi].1) == k;
                assert(spec_key(posts[oi].0, posts[oi].1) == k);
            }
        }
    }
}

} // verus!
