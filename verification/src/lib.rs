//! Renderer-agnostic cellular-automaton engine with a procedural
//! dungeon-synth audio core.
//!
//! The crate has two halves: the grid logic (dense finite [`Grid`],
//! sparse [`infinite_grid::InfiniteGrid`], pattern loaders under [`io`])
//! and the audio synthesis engine under [`audio`], which renders a stereo
//! soundscape from a small feature vector summarising the grid state.
//! All audio arithmetic is done in signed micro-unit fixed point
//! (1_000_000 == 1.0) so that every gain stage and clamp is checked.

use vstd::prelude::*;

pub mod audio;
pub mod config;
pub mod infinite_grid;
pub mod io;
pub mod settings;
pub mod start_screen;

verus! {

/// Cell state for multi-state cellular automata.
#[derive(Copy, Clone, Eq, PartialEq, Debug, Structural)]
pub enum CellState {
    Dead,
    Alive,
    /// Refractory state for Brian's Brain.
    Dying,
    /// Conductor for WireWorld.
    Wire,
    /// Electron head for WireWorld.
    ElectronHead,
    /// Electron tail for WireWorld.
    ElectronTail,
    /// First species for Immigration.
    SpeciesA,
    /// Second species for Immigration.
    SpeciesB,
}

impl CellState {
    /// Spec view of [`CellState::is_alive`].
    pub open spec fn spec_is_alive(self) -> bool {
        match self {
            CellState::Dead | CellState::Wire | CellState::ElectronTail => false,
            _ => true,
        }
    }

    /// Whether this state counts as "alive" for neighbour counting.
    pub fn is_alive(&self) -> (r: bool)
        ensures
            r == self.spec_is_alive(),
    {
        match self {
            CellState::Dead | CellState::Wire | CellState::ElectronTail => false,
            CellState::Alive | CellState::Dying | CellState::ElectronHead
            | CellState::SpeciesA | CellState::SpeciesB => true,
        }
    }

    /// Whether this is an electron (for WireWorld).
    pub fn is_electron(&self) -> (r: bool)
        ensures
            r == (self == CellState::ElectronHead || self == CellState::ElectronTail),
    {
        match self {
            CellState::ElectronHead | CellState::ElectronTail => true,
            _ => false,
        }
    }

    /// Whether this is a species cell (for Immigration).
    pub fn is_species(&self) -> (r: bool)
        ensures
            r == (self == CellState::SpeciesA || self == CellState::SpeciesB),
    {
        match self {
            CellState::SpeciesA | CellState::SpeciesB => true,
            _ => false,
        }
    }
}

impl Default for CellState {
    fn default() -> (r: Self)
        ensures
            r == CellState::Dead,
    {
        CellState::Dead
    }
}

/// Toroidal wrap of `pos + delta` into `0 .. max`, for `delta` in `{-1, 0, 1}`.
pub open spec fn spec_wrap_coord(pos: int, delta: int, max: int) -> int {
    (pos + delta + max) % max
}

/// Trait for any Life-like rule on the finite grid.
pub trait Rule: Sized {
    /// The state the rule assigns to `(x, y)` given the whole grid.
    spec fn spec_next(&self, grid: &Grid, x: usize, y: usize) -> CellState;

    /// Compute the next state of a cell `(x, y)` given the whole grid.
    fn next(&self, grid: &Grid, x: usize, y: usize) -> (r: CellState)
        requires
            grid.wf(),
            x < grid.spec_cols(),
            y < grid.spec_rows(),
        ensures
            r == self.spec_next(grid, x, y),
    ;
}

/// Number of live cells among the eight toroidal neighbours of `(x, y)`.
pub open spec fn spec_live_neighbours(grid: &Grid, x: usize, y: usize) -> int {
    let c = grid.spec_cols() as int;
    let r = grid.spec_rows() as int;
    let xm = spec_wrap_coord(x as int, -1, c);
    let xp = spec_wrap_coord(x as int, 1, c);
    let ym = spec_wrap_coord(y as int, -1, r);
    let yp = spec_wrap_coord(y as int, 1, r);
    let x0 = x as int;
    let y0 = y as int;
    (if grid.spec_cell(xm, ym) { 1int } else { 0int })
        + (if grid.spec_cell(x0, ym) { 1int } else { 0int })
        + (if grid.spec_cell(xp, ym) { 1int } else { 0int })
        + (if grid.spec_cell(xm, y0) { 1int } else { 0int })
        + (if grid.spec_cell(xp, y0) { 1int } else { 0int })
        + (if grid.spec_cell(xm, yp) { 1int } else { 0int })
        + (if grid.spec_cell(x0, yp) { 1int } else { 0int })
        + (if grid.spec_cell(xp, yp) { 1int } else { 0int })
}

/// Next state under Conway's rule (B3/S23).
pub open spec fn spec_conway_next(grid: &Grid, x: usize, y: usize) -> CellState {
    let alive = grid.spec_cell(x as int, y as int);
    let n = spec_live_neighbours(grid, x, y);
    if (alive && (n == 2 || n == 3)) || (!alive && n == 3) {
        CellState::Alive
    } else {
        CellState::Dead
    }
}

/// Next state under the HighLife rule (B36/S23).
pub open spec fn spec_highlife_next(grid: &Grid, x: usize, y: usize) -> CellState {
    let alive = grid.spec_cell(x as int, y as int);
    let n = spec_live_neighbours(grid, x, y);
    if (alive && (n == 2 || n == 3)) || (!alive && (n == 3 || n == 6)) {
        CellState::Alive
    } else {
        CellState::Dead
    }
}

/// Next state under the Seeds rule (B2/S0).
pub open spec fn spec_seeds_next(grid: &Grid, x: usize, y: usize) -> CellState {
    let alive = grid.spec_cell(x as int, y as int);
    let n = spec_live_neighbours(grid, x, y);
    if !alive && n == 2 {
        CellState::Alive
    } else {
        CellState::Dead
    }
}

/// Canonical Conway's Game of Life rule (B3/S23).
#[derive(Copy, Clone, Debug)]
pub struct ConwayRule;

impl Rule for ConwayRule {
    open spec fn spec_next(&self, grid: &Grid, x: usize, y: usize) -> CellState {
        spec_conway_next(grid, x, y)
    }

    fn next(&self, grid: &Grid, x: usize, y: usize) -> (r: CellState)
    {
        let alive = grid.is_alive(x, y);
        let n = grid.live_neighbours(x, y);
        if (alive && (n == 2 || n == 3)) || (!alive && n == 3) {
            CellState::Alive
        } else {
            CellState::Dead
        }
    }
}

impl Default for ConwayRule {
    fn default() -> (r: Self)
        ensures
            r == ConwayRule,
    {
        ConwayRule
    }
}

/// HighLife rule (B36/S23): Conway's survival, plus birth on 3 or 6 neighbours.
#[derive(Copy, Clone, Debug)]
pub struct HighLifeRule;

impl Rule for HighLifeRule {
    open spec fn spec_next(&self, grid: &Grid, x: usize, y: usize) -> CellState {
        spec_highlife_next(grid, x, y)
    }

    fn next(&self, grid: &Grid, x: usize, y: usize) -> (r: CellState)
    {
        let alive = grid.is_alive(x, y);
        let n = grid.live_neighbours(x, y);
        if (alive && (n == 2 || n == 3)) || (!alive && (n == 3 || n == 6)) {
            CellState::Alive
        } else {
            CellState::Dead
        }
    }
}

impl Default for HighLifeRule {
    fn default() -> (r: Self)
        ensures
            r == HighLifeRule,
    {
        HighLifeRule
    }
}

/// Seeds rule (B2/S0): no survival, birth only on exactly 2 neighbours.
#[derive(Copy, Clone, Debug)]
pub struct SeedsRule;

impl Rule for SeedsRule {
    open spec fn spec_next(&self, grid: &Grid, x: usize, y: usize) -> CellState {
        spec_seeds_next(grid, x, y)
    }

    fn next(&self, grid: &Grid, x: usize, y: usize) -> (r: CellState)
    {
        let alive = grid.is_alive(x, y);
        let n = grid.live_neighbours(x, y);
        if !alive && n == 2 {
            CellState::Alive
        } else {
            CellState::Dead
        }
    }
}

impl Default for SeedsRule {
    fn default() -> (r: Self)
        ensures
            r == SeedsRule,
    {
        SeedsRule
    }
}

/// Number of live cells among the first `n` of row `y`.
pub open spec fn spec_row_live(g: &Grid, y: int, n: int) -> int
    decreases n,
{
    if n <= 0 {
        0
    } else {
        spec_row_live(g, y, n - 1) + if g.spec_cell(n - 1, y) {
            1int
        } else {
            0int
        }
    }
}

/// Number of live cells in the first `m` rows.
pub open spec fn spec_live_cells(g: &Grid, m: int) -> int
    decreases m,
{
    if m <= 0 {
        0
    } else {
        spec_live_cells(g, m - 1) + spec_row_live(g, m - 1, g.spec_cols() as int)
    }
}

/// 2-D dense grid of booleans, row-major.
#[derive(Clone, Debug)]
pub struct Grid {
    cols: usize,
    rows: usize,
    data: Vec<bool>,
}

impl Grid {
    /// Well-formedness: the backing store covers every cell exactly once.
    pub closed spec fn wf(&self) -> bool {
        &&& self.data.len() == self.cols * self.rows
        &&& self.cols <= 0x8000_0000
        &&& self.rows <= 0x8000_0000
    }

    /// Width in cells.
    pub closed spec fn spec_cols(&self) -> usize {
        self.cols
    }

    /// Height in cells.
    pub closed spec fn spec_rows(&self) -> usize {
        self.rows
    }

    /// Whether the cell at `(x, y)` is alive; out-of-range cells read as dead.
    pub closed spec fn spec_cell(&self, x: int, y: int) -> bool {
        if 0 <= x < self.cols && 0 <= y < self.rows {
            self.data[y * self.cols + x]
        } else {
            false
        }
    }

    /// Create a new empty grid (all dead).
    pub fn new(cols: usize, rows: usize) -> (r: Self)
        requires
            cols <= 0x8000_0000,
            rows <= 0x8000_0000,
            cols * rows <= usize::MAX,
        ensures
            r.wf(),
            r.spec_cols() == cols,
            r.spec_rows() == rows,
            forall|x: int, y: int| !r.spec_cell(x, y),
    {
        let n = cols * rows;
        let mut data: Vec<bool> = Vec::new();
        let mut i: usize = 0;
        while i < n
            invariant
                i <= n,
                data.len() == i,
                forall|j: int| 0 <= j < i ==> !data[j],
            decreases n - i,
        {
            data.push(false);
            i += 1;
        }
        let g = Grid { cols, rows, data };
        proof {
            assert forall|x: int, y: int| !g.spec_cell(x, y) by {
                if 0 <= x < cols && 0 <= y < rows {
                    lemma_row_major_in_range(x, y, cols as int, rows as int);
                }
            }
        }
        g
    }

    /// Width in cells.
    pub fn cols(&self) -> (r: usize)
        ensures
            r == self.spec_cols(),
    {
        self.cols
    }

    /// Height in cells.
    pub fn rows(&self) -> (r: usize)
        ensures
            r == self.spec_rows(),
    {
        self.rows
    }

    /// Return `true` if `(x, y)` is within bounds **and alive**.
    pub fn is_alive(&self, x: usize, y: usize) -> (r: bool)
        requires
            self.wf(),
        ensures
            r == self.spec_cell(x as int, y as int),
    {
        if x >= self.cols || y >= self.rows {
            return false;
        }
        proof {
            lemma_row_major_in_range(x as int, y as int, self.cols as int, self.rows as int);
        }
        self.data[y * self.cols + x]
    }

    /// Set cell state safely; out-of-range writes are ignored.
    pub fn set(&mut self, x: usize, y: usize, state: CellState)
        requires
            old(self).wf(),
        ensures
            final(self).wf(),
            final(self).spec_cols() == old(self).spec_cols(),
            final(self).spec_rows() == old(self).spec_rows(),
            final(self).spec_cell(x as int, y as int) == if x < old(self).spec_cols()
                && y < old(self).spec_rows() {
                state == CellState::Alive
            } else {
                false
            },
            forall|i: int, j: int|
                !(i == x && j == y) ==> final(self).spec_cell(i, j) == old(self).spec_cell(i, j),
    {
        if x >= self.cols || y >= self.rows {
            return ;
        }
        proof {
            lemma_row_major_in_range(x as int, y as int, self.cols as int, self.rows as int);
        }
        let idx = y * self.cols + x;
        self.data.set(idx, state == CellState::Alive);
        proof {
            assert forall|i: int, j: int|
                !(i == x && j == y) implies self.spec_cell(i, j) == old(self).spec_cell(
                i,
                j,
            ) by {
                if 0 <= i < self.cols && 0 <= j < self.rows {
                    lemma_row_major_in_range(i, j, self.cols as int, self.rows as int);
                    lemma_row_major_distinct(
                        i,
                        j,
                        x as int,
                        y as int,
                        self.cols as int,
                        self.rows as int,
                    );
                }
            }
        }
    }

    /// Count live neighbours with toroidal wrap-around.
    fn live_neighbours(&self, x: usize, y: usize) -> (r: u8)
        requires
            self.wf(),
            self.spec_cols() > 0,
            self.spec_rows() > 0,
            x < self.spec_cols(),
            y < self.spec_rows(),
        ensures
            r == spec_live_neighbours(self, x, y),
    {
        let xm = wrap_coord(x, -1, self.cols);
        let xp = wrap_coord(x, 1, self.cols);
        let ym = wrap_coord(y, -1, self.rows);
        let yp = wrap_coord(y, 1, self.rows);
        let mut count: u8 = 0;
        if self.is_alive(xm, ym) {
            count += 1;
        }
        if self.is_alive(x, ym) {
            count += 1;
        }
        if self.is_alive(xp, ym) {
            count += 1;
        }
        if self.is_alive(xm, y) {
            count += 1;
        }
        if self.is_alive(xp, y) {
            count += 1;
        }
        if self.is_alive(xm, yp) {
            count += 1;
        }
        if self.is_alive(x, yp) {
            count += 1;
        }
        if self.is_alive(xp, yp) {
            count += 1;
        }
        count
    }

    /// Advance the whole grid by one generation using `rule`.
    pub fn step<R: Rule>(&mut self, rule: &R)
        requires
            old(self).wf(),
        ensures
            final(self).wf(),
            final(self).spec_cols() == old(self).spec_cols(),
            final(self).spec_rows() == old(self).spec_rows(),
            forall|x: usize, y: usize|
                x < old(self).spec_cols() && y < old(self).spec_rows()
                    ==> final(self).spec_cell(x as int, y as int) == (rule.spec_next(
                    old(self),
                    x,
                    y,
                ) == CellState::Alive),
    {
        let cols = self.cols;
        let rows = self.rows;
        let mut next: Vec<bool> = self.data.clone();
        let mut y: usize = 0;
        while y < rows
            invariant
                self == old(self),
                self.wf(),
                cols == self.spec_cols(),
                rows == self.spec_rows(),
                y <= rows,
                next.len() == cols * rows,
                forall|i: usize, j: usize|
                    i < cols && j < y ==> next[j * cols + i] == (rule.spec_next(self, i, j)
                        == CellState::Alive),
            decreases rows - y,
        {
            let mut x: usize = 0;
            while x < cols
                invariant
                    self == old(self),
                    self.wf(),
                    cols == self.spec_cols(),
                    rows == self.spec_rows(),
                    y < rows,
                    x <= cols,
                    next.len() == cols * rows,
                    forall|i: usize, j: usize|
                        i < cols && j < y ==> next[j * cols + i] == (rule.spec_next(self, i, j)
                            == CellState::Alive),
                    forall|i: usize|
                        i < x ==> next[y * cols + i] == (rule.spec_next(self, i, y)
                            == CellState::Alive),
                decreases cols - x,
            {
                let state = rule.next(self, x, y);
                proof {
                    lemma_row_major_in_range(x as int, y as int, cols as int, rows as int);
                }
                next.set(y * cols + x, state == CellState::Alive);
                proof {
                    assert forall|i: usize, j: usize|
                        i < cols && j < y implies next[j as int * cols + i] == (rule.spec_next(
                        self,
                        i,
                        j,
                    ) == CellState::Alive) by {
                        lemma_row_major_in_range(i as int, j as int, cols as int, rows as int);
                        lemma_row_major_distinct(
                            i as int,
                            j as int,
                            x as int,
                            y as int,
                            cols as int,
                            rows as int,
                        );
                    }
                    assert forall|i: usize|
                        i < x implies next[y as int * cols + i] == (rule.spec_next(self, i, y)
                        == CellState::Alive) by {
                        lemma_row_major_in_range(i as int, y as int, cols as int, rows as int);
                        lemma_row_major_distinct(
                            i as int,
                            y as int,
                            x as int,
                            y as int,
                            cols as int,
                            rows as int,
                        );
                    }
                }
                x += 1;
            }
            y += 1;
        }
        self.data = next;
        proof {
            assert forall|x: usize, y: usize|
                x < old(self).spec_cols() && y < old(self).spec_rows() implies self.spec_cell(
                x as int,
                y as int,
            ) == (rule.spec_next(old(self), x, y) == CellState::Alive) by {
                lemma_row_major_in_range(x as int, y as int, cols as int, rows as int);
            }
        }
    }

    /// Count the total number of live cells: exactly the number of in-range
    /// coordinates whose cell is alive.
    pub fn live_cell_count(&self) -> (r: usize)
        requires
            self.wf(),
        ensures
            r == spec_live_cells(self, self.spec_rows() as int),
            r <= self.spec_cols() * self.spec_rows(),
    {
        let mut count: usize = 0;
        let mut y: usize = 0;
        while y < self.rows
            invariant
                self.wf(),
                y <= self.rows,
                count == spec_live_cells(self, y as int),
                count <= y * self.cols,
            decreases self.rows - y,
        {
            let mut x: usize = 0;
            while x < self.cols
                invariant
                    self.wf(),
                    y < self.rows,
                    x <= self.cols,
                    count == spec_live_cells(self, y as int) + spec_row_live(
                        self,
                        y as int,
                        x as int,
                    ),
                    count <= y * self.cols + x,
                decreases self.cols - x,
            {
                if self.is_alive(x, y) {
                    proof {
                        lemma_row_major_in_range(
                            x as int,
                            y as int,
                            self.cols as int,
                            self.rows as int,
                        );
                    }
                    count += 1;
                }
                x += 1;
            }
            proof {
                assert((y + 1) * self.cols == y * self.cols + self.cols) by (nonlinear_arith);
            }
            y += 1;
        }
        proof {
            assert(self.rows * self.cols == self.cols * self.rows) by (nonlinear_arith);
        }
        count
    }
}

/// Reads outside the grid are dead, on any grid.
pub proof fn lemma_cell_out_of_range(g: &Grid, x: int, y: int)
    requires
        !(0 <= x < g.spec_cols() && 0 <= y < g.spec_rows()),
    ensures
        !g.spec_cell(x, y),
{
}

/// `y * cols + x` is a valid index when `(x, y)` is in range.
proof fn lemma_row_major_in_range(x: int, y: int, cols: int, rows: int)
    requires
        0 <= x < cols,
        0 <= y < rows,
    ensures
        0 <= y * cols + x < cols * rows,
{
    assert(y * cols + x < cols * rows) by (nonlinear_arith)
        requires
            0 <= x < cols,
            0 <= y < rows,
    ;
    assert(y * cols >= 0) by (nonlinear_arith)
        requires
            0 <= y,
            0 < cols,
    ;
}

/// Distinct in-range coordinates get distinct row-major indices.
proof fn lemma_row_major_distinct(x1: int, y1: int, x2: int, y2: int, cols: int, rows: int)
    requires
        0 <= x1 < cols,
        0 <= y1 < rows,
        0 <= x2 < cols,
        0 <= y2 < rows,
        !(x1 == x2 && y1 == y2),
    ensures
        y1 * cols + x1 != y2 * cols + x2,
{
    assert(y1 * cols + x1 != y2 * cols + x2) by (nonlinear_arith)
        requires
            0 <= x1 < cols,
            0 <= x2 < cols,
            !(x1 == x2 && y1 == y2),
    ;
}

/// Toroidal neighbour coordinate: wrap `pos + delta` into `0 .. max`.
fn wrap_coord(pos: usize, delta: i64, max: usize) -> (r: usize)
    requires
        0 < max <= 0x8000_0000,
        pos < max,
        -1 <= delta <= 1,
    ensures
        r == spec_wrap_coord(pos as int, delta as int, max as int),
        r < max,
{
    let m = max as i64;
    let s = pos as i64 + delta + m;
    let w = s % m;
    w as usize
}

} // verus!
