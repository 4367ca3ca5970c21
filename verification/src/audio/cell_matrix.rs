//! Spatial downsampling of live-cell coordinates into a 4-by-4 region grid.
//!
//! Small populations are aggregated cell by cell; above
//! [`LARGE_POPULATION`] cells the viewport is split into 16 regions and each
//! region samples at most [`MAX_CELLS_PER_REGION`] of its cells through a
//! stride, which keeps the per-update cost bounded no matter how large the
//! population grows. In the sampling path the whole matrix is pinned: each
//! region's inspected count, density and the means of the sampled local
//! scores are exact functions of the cell snapshot.

use vstd::prelude::*;

use crate::audio::fixed::{clamp_fx, lemma_div_range, spec_clamp, SCALE};

verus! {

/// Populations above this size are aggregated by region sampling.
pub const LARGE_POPULATION: usize = 200;

/// Hard cap on the cells inspected per region in the sampling path.
pub const MAX_CELLS_PER_REGION: usize = 50;

/// Region coordinate along one axis: the viewport is shifted by two widths
/// and split into four; negative positions land in band zero, positions
/// past the grid in the out-of-range band four.
pub open spec fn spec_region_coord(coord: int, camera: int, viewport: int) -> int {
    let rel = coord * (SCALE as int) - camera + 2 * viewport;
    if rel < 0 {
        0
    } else {
        let q = rel / (viewport / 4);
        if q > 4 {
            4
        } else {
            q
        }
    }
}

/// Region index of a cell, or 16 when it falls outside the 4-by-4 grid.
pub open spec fn spec_region_of(c: (i32, i32), camx: int, camy: int, vp: int) -> int {
    let rx = spec_region_coord(c.0 as int, camx, vp);
    let ry = spec_region_coord(c.1 as int, camy, vp);
    if rx < 4 && ry < 4 {
        ry * 4 + rx
    } else {
        16
    }
}

/// The cells among the first `n` that fall into region `k`, in order.
pub open spec fn spec_bucket(
    cells: Seq<(i32, i32)>,
    camx: int,
    camy: int,
    vp: int,
    k: int,
    n: int,
) -> Seq<(i32, i32)>
    decreases n,
{
    if n <= 0 {
        Seq::empty()
    } else {
        let prefix = spec_bucket(cells, camx, camy, vp, k, n - 1);
        if spec_region_of(cells[n - 1], camx, camy, vp) == k {
            prefix.push(cells[n - 1])
        } else {
            prefix
        }
    }
}

/// Number of the first `n` cells inside the 3-by-3 neighbourhood of
/// `(x, y)` (squared distance at most 9).
pub open spec fn spec_neighbor_count(x: int, y: int, cells: Seq<(i32, i32)>, n: int) -> int
    decreases n,
{
    if n <= 0 {
        0
    } else {
        let dx = cells[n - 1].0 - x;
        let dy = cells[n - 1].1 - y;
        spec_neighbor_count(x, y, cells, n - 1) + if -3 <= dx <= 3 && -3 <= dy <= 3 && dx * dx + dy
            * dy <= 9 {
            1int
        } else {
            0int
        }
    }
}

/// Local intensity of a cell among `cells`: the occupied fraction of its
/// 3-by-3 neighbourhood, capped at one unit.
pub open spec fn spec_local_intensity(x: int, y: int, cells: Seq<(i32, i32)>) -> int {
    let count = spec_neighbor_count(x, y, cells, cells.len() as int);
    let capped = if count > 9 {
        9int
    } else {
        count
    };
    spec_clamp(capped * 111_111, 0, SCALE as int)
}

/// Offsets of the first `n` cells inside the 5-by-5 neighbourhood of
/// `(x, y)` (squared distance at most 25), in order.
pub open spec fn spec_offsets(x: int, y: int, cells: Seq<(i32, i32)>, n: int) -> Seq<(i64, i64)>
    decreases n,
{
    if n <= 0 {
        Seq::empty()
    } else {
        let prefix = spec_offsets(x, y, cells, n - 1);
        let dx = cells[n - 1].0 - x;
        let dy = cells[n - 1].1 - y;
        if -5 <= dx <= 5 && -5 <= dy <= 5 && dx * dx + dy * dy <= 25 {
            prefix.push((dx as i64, dy as i64))
        } else {
            prefix
        }
    }
}

/// One step of the bounded integer square-root search.
pub open spec fn spec_isqrt_step(n: int, s: int, fuel: nat) -> int
    decreases fuel,
{
    if fuel == 0 {
        s
    } else if (s + 1) * (s + 1) > n {
        s
    } else {
        spec_isqrt_step(n, s + 1, (fuel - 1) as nat)
    }
}

/// Floor of `1000 * sqrt(d2)` for squared lattice distances up to 200.
pub open spec fn spec_isqrt_milli(d2: int) -> int {
    spec_isqrt_step(d2 * 1_000_000, 1_000, 14_000)
}

/// Inverse distance in micro-units for a squared lattice distance.
pub open spec fn spec_inv_dist(d2: int) -> int {
    spec_clamp(1_000_000_000int / spec_isqrt_milli(d2), 0, SCALE as int)
}

/// Sum of the inverse distances from offset `a` to the first `m` offsets
/// (skipping the offset itself).
pub open spec fn spec_pair_row(neighbors: Seq<(i64, i64)>, a: int, m: int) -> int
    decreases m,
{
    if m <= 0 {
        0
    } else {
        let p = neighbors[a];
        let q = neighbors[m - 1];
        spec_pair_row(neighbors, a, m - 1) + if !(p.0 == q.0 && p.1 == q.1) {
            let d2 = (p.0 - q.0) * (p.0 - q.0) + (p.1 - q.1) * (p.1 - q.1);
            if d2 > 0 {
                spec_inv_dist(d2)
            } else {
                0int
            }
        } else {
            0int
        }
    }
}

/// Regularity score over the first `n` offsets: the pairwise inverse
/// distances, saturated so the accumulator stays representable (the final
/// score is clamped to one unit either way).
pub open spec fn spec_regularity(neighbors: Seq<(i64, i64)>, n: int) -> int
    decreases n,
{
    if n <= 0 {
        0
    } else {
        let acc = spec_regularity(neighbors, n - 1) + spec_pair_row(
            neighbors,
            n - 1,
            neighbors.len() as int,
        );
        if acc > 1_000_000_000_000_000 {
            1_000_000_000_000_000
        } else {
            acc
        }
    }
}

/// Local complexity of a cell among `cells`: the mean inverse distance
/// over all pairs of its 5-by-5 neighbours, capped at one unit; fewer than
/// three neighbours score zero.
pub open spec fn spec_local_complexity(x: int, y: int, cells: Seq<(i32, i32)>) -> int {
    let ns = spec_offsets(x, y, cells, cells.len() as int);
    if ns.len() <= 2 {
        0
    } else {
        spec_clamp(spec_regularity(ns, ns.len() as int) / ns.len() as int, 0, SCALE as int)
    }
}

/// Cells sampled from a bucket by stride `step`: the first `t` sampled
/// local intensities, summed.
pub open spec fn spec_sampled_intensity(b: Seq<(i32, i32)>, step: int, t: int) -> int
    decreases t,
{
    if t <= 0 {
        0
    } else {
        let c = b[(t - 1) * step];
        spec_sampled_intensity(b, step, t - 1) + spec_local_intensity(c.0 as int, c.1 as int, b)
    }
}

/// The first `t` sampled local complexities, summed.
pub open spec fn spec_sampled_complexity(b: Seq<(i32, i32)>, step: int, t: int) -> int
    decreases t,
{
    if t <= 0 {
        0
    } else {
        let c = b[(t - 1) * step];
        spec_sampled_complexity(b, step, t - 1) + spec_local_complexity(c.0 as int, c.1 as int, b)
    }
}

/// Number of cells a region inspects: its bucket size, capped.
pub open spec fn spec_sampled_count(blen: int) -> int {
    if blen < 50 {
        blen
    } else {
        50
    }
}

/// Sampling stride of a bucket.
pub open spec fn spec_stride(blen: int) -> int {
    if blen > 50 {
        blen / 50
    } else {
        1
    }
}

/// The exact region triple the sampling path computes from a bucket.
pub open spec fn spec_region_triple(b: Seq<(i32, i32)>) -> (i64, i64, i64) {
    if b.len() == 0 {
        (0i64, 0i64, 0i64)
    } else {
        let cc = spec_sampled_count(b.len() as int);
        let st = spec_stride(b.len() as int);
        (
            spec_clamp(cc * 20_000, 0, SCALE as int) as i64,
            spec_clamp(spec_sampled_intensity(b, st, cc) / cc, 0, SCALE as int) as i64,
            spec_clamp(spec_sampled_complexity(b, st, cc) / cc, 0, SCALE as int) as i64,
        )
    }
}

/// Per-region aggregate of the live cells: 16 normalized
/// (density, activity, complexity) triples plus, for the sampling path, how
/// many cells each region actually inspected.
pub struct CellMatrix {
    /// Normalized (density, activity, complexity) per 4-by-4 region, each
    /// component in `[0, 1]` micro-units.
    pub regions: [(i64, i64, i64); 16],
    /// Number of live cells in the last update.
    pub total_cells: usize,
    /// Cells inspected per region by the last sampling-path update.
    pub sampled_counts: [usize; 16],
}

impl CellMatrix {
    /// All region components are normalized scores.
    pub open spec fn wf(&self) -> bool {
        &&& forall|k: int| 0 <= k < 16 ==> 0 <= (#[trigger] self.regions[k]).0 <= SCALE
        &&& forall|k: int| 0 <= k < 16 ==> 0 <= (#[trigger] self.regions[k]).1 <= SCALE
        &&& forall|k: int| 0 <= k < 16 ==> 0 <= (#[trigger] self.regions[k]).2 <= SCALE
    }

    /// An empty matrix: no cells, all regions silent.
    pub fn new() -> (r: Self)
        ensures
            r.wf(),
            r.total_cells == 0,
            forall|k: int| 0 <= k < 16 ==> #[trigger] r.sampled_counts[k] == 0,
    {
        CellMatrix {
            regions: [(0i64, 0i64, 0i64); 16],
            total_cells: 0,
            sampled_counts: [0usize; 16],
        }
    }

    /// Recompute the matrix from a cell snapshot, replacing it wholesale
    /// (previous values are discarded; no partial update is visible).
    ///
    /// With more than [`LARGE_POPULATION`] cells, each region inspects
    /// exactly the capped bucket size — never more than
    /// [`MAX_CELLS_PER_REGION`] cells — and its triple is exactly the
    /// capped density with the means of the sampled local scores.
    pub fn update_from_cells(
        &mut self,
        cells: &Vec<(i32, i32)>,
        camera_x: i64,
        camera_y: i64,
        viewport_size: i64,
    )
        requires
            cells@.len() <= 100_000_000,
            -1_000_000_000_000 <= camera_x <= 1_000_000_000_000,
            -1_000_000_000_000 <= camera_y <= 1_000_000_000_000,
            4_000_000 <= viewport_size <= 1_000_000_000_000,
        ensures
            final(self).wf(),
            final(self).total_cells == cells@.len(),
            forall|k: int| 0 <= k < 16 ==> #[trigger] final(self).sampled_counts[k] <= MAX_CELLS_PER_REGION,
            cells@.len() > LARGE_POPULATION ==> forall|k: int|
                0 <= k < 16 ==> #[trigger] final(self).sampled_counts[k] == spec_sampled_count(
                    spec_bucket(
                        cells@,
                        camera_x as int,
                        camera_y as int,
                        viewport_size as int,
                        k,
                        cells@.len() as int,
                    ).len() as int,
                ),
            cells@.len() > LARGE_POPULATION ==> forall|k: int|
                0 <= k < 16 ==> #[trigger] final(self).regions[k] == spec_region_triple(
                    spec_bucket(
                        cells@,
                        camera_x as int,
                        camera_y as int,
                        viewport_size as int,
                        k,
                        cells@.len() as int,
                    ),
                ),
    {
        self.total_cells = cells.len();
        self.regions = [(0i64, 0i64, 0i64); 16];
        self.sampled_counts = [0usize; 16];
        if cells.len() > LARGE_POPULATION {
            self.update_with_spatial_grouping(cells, camera_x, camera_y, viewport_size);
        } else {
            self.update_direct(cells, camera_x, camera_y, viewport_size);
        }
    }

    /// Aggregate every cell directly (small populations).
    fn update_direct(
        &mut self,
        cells: &Vec<(i32, i32)>,
        camera_x: i64,
        camera_y: i64,
        viewport_size: i64,
    )
        requires
            cells@.len() <= 200,
            -1_000_000_000_000 <= camera_x <= 1_000_000_000_000,
            -1_000_000_000_000 <= camera_y <= 1_000_000_000_000,
            4_000_000 <= viewport_size <= 1_000_000_000_000,
            old(self).total_cells == cells@.len(),
            forall|k: int| 0 <= k < 16 ==> #[trigger] old(self).sampled_counts[k] == 0,
        ensures
            final(self).wf(),
            final(self).total_cells == old(self).total_cells,
            forall|k: int| 0 <= k < 16 ==> #[trigger] final(self).sampled_counts[k] <= MAX_CELLS_PER_REGION,
    {
        let region_size = viewport_size / 4;
        let mut counts: [i64; 16] = [0i64; 16];
        let mut intensity_sums: [i64; 16] = [0i64; 16];
        let mut complexity_sums: [i64; 16] = [0i64; 16];
        let mut i: usize = 0;
        while i < cells.len()
            invariant
                *self == *old(self),
                cells@.len() <= 200,
                -1_000_000_000_000 <= camera_x <= 1_000_000_000_000,
                -1_000_000_000_000 <= camera_y <= 1_000_000_000_000,
                4_000_000 <= viewport_size <= 1_000_000_000_000,
                region_size == viewport_size / 4,
                i <= cells@.len(),
                forall|k: int| 0 <= k < 16 ==> 0 <= #[trigger] counts[k] <= i,
                forall|k: int|
                    0 <= k < 16 ==> 0 <= #[trigger] intensity_sums[k] <= (i as int) * SCALE,
                forall|k: int|
                    0 <= k < 16 ==> 0 <= #[trigger] complexity_sums[k] <= (i as int) * SCALE,
            decreases cells@.len() - i,
        {
            let (x, y) = cells[i];
            let intensity = local_intensity(x, y, cells);
            let rx = region_index(x, camera_x, viewport_size, region_size);
            let ry = region_index(y, camera_y, viewport_size, region_size);
            if rx < 4 && ry < 4 {
                let idx = ry * 4 + rx;
                let complexity = local_complexity(x, y, cells);
                counts[idx] = counts[idx] + 1;
                intensity_sums[idx] = intensity_sums[idx] + intensity;
                complexity_sums[idx] = complexity_sums[idx] + complexity;
            }
            i += 1;
        }
        let mut k: usize = 0;
        while k < 16
            invariant
                forall|m: int| 0 <= m < 16 ==> 0 <= #[trigger] counts[m] <= 200,
                forall|m: int| 0 <= m < 16 ==> 0 <= #[trigger] intensity_sums[m] <= 200_000_000,
                forall|m: int| 0 <= m < 16 ==> 0 <= #[trigger] complexity_sums[m] <= 200_000_000,
                self.total_cells == old(self).total_cells,
                forall|m: int| 0 <= m < 16 ==> #[trigger] self.sampled_counts[m] == 0,
                k <= 16,
                forall|m: int| 0 <= m < k ==> 0 <= (#[trigger] self.regions[m]).0 <= SCALE,
                forall|m: int| 0 <= m < k ==> 0 <= (#[trigger] self.regions[m]).1 <= SCALE,
                forall|m: int| 0 <= m < k ==> 0 <= (#[trigger] self.regions[m]).2 <= SCALE,
            decreases 16 - k,
        {
            let count = counts[k];
            let density = clamp_fx(count * 20_000, 0, SCALE);
            let divisor = if count >= 1 {
                count
            } else {
                1
            };
            proof {
                lemma_div_range(intensity_sums[k as int] as int, divisor as int, 0, 200_000_000, 1, 200);
                lemma_div_range(complexity_sums[k as int] as int, divisor as int, 0, 200_000_000, 1, 200);
            }
            let activity = clamp_fx(intensity_sums[k] / divisor, 0, SCALE);
            let complexity = clamp_fx(complexity_sums[k] / divisor, 0, SCALE);
            self.regions[k] = (density, activity, complexity);
            k += 1;
        }
    }

    /// Aggregate by 4-by-4 regions, inspecting exactly the capped bucket
    /// size per region through a stride (large populations).
    fn update_with_spatial_grouping(
        &mut self,
        cells: &Vec<(i32, i32)>,
        camera_x: i64,
        camera_y: i64,
        viewport_size: i64,
    )
        requires
            cells@.len() <= 100_000_000,
            -1_000_000_000_000 <= camera_x <= 1_000_000_000_000,
            -1_000_000_000_000 <= camera_y <= 1_000_000_000_000,
            4_000_000 <= viewport_size <= 1_000_000_000_000,
            old(self).total_cells == cells@.len(),
            forall|k: int| 0 <= k < 16 ==> #[trigger] old(self).sampled_counts[k] == 0,
            forall|k: int| 0 <= k < 16 ==> #[trigger] old(self).regions[k] == (0i64, 0i64, 0i64),
        ensures
            final(self).wf(),
            final(self).total_cells == old(self).total_cells,
            forall|k: int| 0 <= k < 16 ==> #[trigger] final(self).sampled_counts[k] <= MAX_CELLS_PER_REGION,
            forall|k: int|
                0 <= k < 16 ==> #[trigger] final(self).sampled_counts[k] == spec_sampled_count(
                    spec_bucket(
                        cells@,
                        camera_x as int,
                        camera_y as int,
                        viewport_size as int,
                        k,
                        cells@.len() as int,
                    ).len() as int,
                ),
            forall|k: int|
                0 <= k < 16 ==> #[trigger] final(self).regions[k] == spec_region_triple(
                    spec_bucket(
                        cells@,
                        camera_x as int,
                        camera_y as int,
                        viewport_size as int,
                        k,
                        cells@.len() as int,
                    ),
                ),
    {
        let ghost camx = camera_x as int;
        let ghost camy = camera_y as int;
        let ghost vp = viewport_size as int;
        let region_size = viewport_size / 4;
        let mut region_cells: Vec<Vec<(i32, i32)>> = Vec::new();
        let mut k: usize = 0;
        while k < 16
            invariant
                *self == *old(self),
                k <= 16,
                region_cells@.len() == k,
                forall|m: int| 0 <= m < k ==> (#[trigger] region_cells@[m])@.len() == 0,
            decreases 16 - k,
        {
            region_cells.push(Vec::new());
            k += 1;
        }
        let mut i: usize = 0;
        while i < cells.len()
            invariant
                *self == *old(self),
                camx == camera_x as int,
                camy == camera_y as int,
                vp == viewport_size as int,
                cells@.len() <= 100_000_000,
                -1_000_000_000_000 <= camera_x <= 1_000_000_000_000,
                -1_000_000_000_000 <= camera_y <= 1_000_000_000_000,
                4_000_000 <= viewport_size <= 1_000_000_000_000,
                region_size == viewport_size / 4,
                i <= cells@.len(),
                region_cells@.len() == 16,
                forall|m: int|
                    0 <= m < 16 ==> (#[trigger] region_cells@[m])@ == spec_bucket(
                        cells@,
                        camx,
                        camy,
                        vp,
                        m,
                        i as int,
                    ),
            decreases cells@.len() - i,
        {
            let (x, y) = cells[i];
            let rx = region_index(x, camera_x, viewport_size, region_size);
            let ry = region_index(y, camera_y, viewport_size, region_size);
            proof {
                assert(rx as int == spec_region_coord(x as int, camx, vp));
                assert(ry as int == spec_region_coord(y as int, camy, vp));
            }
            if rx < 4 && ry < 4 {
                let idx = ry * 4 + rx;
                proof {
                    assert(spec_region_of((x, y), camx, camy, vp) == idx as int);
                }
                let bucket = &mut region_cells[idx];
                bucket.push((x, y));
            } else {
                proof {
                    assert(spec_region_of((x, y), camx, camy, vp) == 16);
                }
            }
            proof {
                assert forall|m: int|
                    0 <= m < 16 implies (#[trigger] region_cells@[m])@ == spec_bucket(
                    cells@,
                    camx,
                    camy,
                    vp,
                    m,
                    i + 1,
                ) by {
                    assert(cells@[i as int] == (x, y));
                }
            }
            i += 1;
        }
        let ghost all = cells@.len() as int;
        let mut k: usize = 0;
        while k < 16
            invariant
                camx == camera_x as int,
                camy == camera_y as int,
                vp == viewport_size as int,
                all == cells@.len() as int,
                cells@.len() <= 100_000_000,
                region_cells@.len() == 16,
                forall|m: int|
                    0 <= m < 16 ==> (#[trigger] region_cells@[m])@ == spec_bucket(
                        cells@,
                        camx,
                        camy,
                        vp,
                        m,
                        all,
                    ),
                self.total_cells == old(self).total_cells,
                forall|m: int| 0 <= m < 16 ==> #[trigger] old(self).sampled_counts[m] == 0,
                forall|m: int| 0 <= m < 16 ==> #[trigger] old(self).regions[m] == (0i64, 0i64, 0i64),
                k <= 16,
                forall|m: int|
                    0 <= m < k ==> #[trigger] self.sampled_counts[m] == spec_sampled_count(
                        spec_bucket(cells@, camx, camy, vp, m, all).len() as int,
                    ),
                forall|m: int|
                    0 <= m < k ==> #[trigger] self.regions[m] == spec_region_triple(
                        spec_bucket(cells@, camx, camy, vp, m, all),
                    ),
                forall|m: int| k <= m < 16 ==> #[trigger] self.sampled_counts[m] == 0,
                forall|m: int| k <= m < 16 ==> #[trigger] self.regions[m] == (0i64, 0i64, 0i64),
                forall|m: int| 0 <= m < 16 ==> #[trigger] self.sampled_counts[m] <= MAX_CELLS_PER_REGION,
                forall|m: int| 0 <= m < 16 ==> 0 <= (#[trigger] self.regions[m]).0 <= SCALE,
                forall|m: int| 0 <= m < 16 ==> 0 <= (#[trigger] self.regions[m]).1 <= SCALE,
                forall|m: int| 0 <= m < 16 ==> 0 <= (#[trigger] self.regions[m]).2 <= SCALE,
            decreases 16 - k,
        {
            let ghost b = spec_bucket(cells@, camx, camy, vp, k as int, all);
            let bucket = &region_cells[k];
            let n = bucket.len();
            proof {
                lemma_bucket_len(cells@, camx, camy, vp, k as int, all);
            }
            if n > 0 {
                let cell_count = if n < MAX_CELLS_PER_REGION {
                    n
                } else {
                    MAX_CELLS_PER_REGION
                };
                let sample_step = if n > MAX_CELLS_PER_REGION {
                    n / MAX_CELLS_PER_REGION
                } else {
                    1
                };
                proof {
                    if n > MAX_CELLS_PER_REGION {
                        lemma_div_range(n as int, 50, 50, 100_000_000, 50, 50);
                        assert(50 * (n as int / 50) <= n as int) by {
                            vstd::arithmetic::div_mod::lemma_fundamental_div_mod(n as int, 50);
                            vstd::arithmetic::div_mod::lemma_mod_pos_bound(n as int, 50);
                        }
                        assert((cell_count as int - 1) * (n as int / 50) < n as int)
                            by (nonlinear_arith)
                            requires
                                cell_count == 50,
                                50 * (n as int / 50) <= n as int,
                                n as int / 50 >= 1,
                        ;
                    }
                }
                let mut total_intensity: i64 = 0;
                let mut total_complexity: i64 = 0;
                let mut t: usize = 0;
                while t < cell_count
                    invariant
                        b == spec_bucket(cells@, camx, camy, vp, k as int, all),
                        region_cells@.len() == 16,
                        k < 16,
                        bucket == region_cells@[k as int],
                        bucket@ == b,
                        n == bucket@.len(),
                        1 <= n <= 100_000_000,
                        cell_count as int == spec_sampled_count(n as int),
                        1 <= cell_count <= MAX_CELLS_PER_REGION,
                        cell_count <= n,
                        sample_step as int == spec_stride(n as int),
                        1 <= sample_step,
                        (cell_count as int - 1) * (sample_step as int) < n as int,
                        t <= cell_count,
                        total_intensity == spec_sampled_intensity(b, sample_step as int, t as int),
                        total_complexity == spec_sampled_complexity(
                            b,
                            sample_step as int,
                            t as int,
                        ),
                        0 <= total_intensity <= (t as int) * SCALE,
                        0 <= total_complexity <= (t as int) * SCALE,
                    decreases cell_count - t,
                {
                    proof {
                        assert((t as int) * (sample_step as int) <= (cell_count as int - 1) * (
                        sample_step as int)) by (nonlinear_arith)
                            requires
                                t < cell_count,
                                sample_step >= 1,
                        ;
                        assert((t as int) * (sample_step as int) >= 0) by (nonlinear_arith)
                            requires
                                t >= 0,
                                sample_step >= 1,
                        ;
                    }
                    let pos = t * sample_step;
                    let (x, y) = bucket[pos];
                    let intensity = local_intensity(x, y, bucket);
                    let complexity = local_complexity(x, y, bucket);
                    total_intensity = total_intensity + intensity;
                    total_complexity = total_complexity + complexity;
                    t += 1;
                }
                proof {
                    lemma_div_range(total_intensity as int, cell_count as int, 0, 50_000_000, 1, 50);
                    lemma_div_range(total_complexity as int, cell_count as int, 0, 50_000_000, 1, 50);
                }
                let density = clamp_fx((cell_count as i64) * 20_000, 0, SCALE);
                let activity = clamp_fx(total_intensity / (cell_count as i64), 0, SCALE);
                let complexity = clamp_fx(total_complexity / (cell_count as i64), 0, SCALE);
                self.sampled_counts[k] = cell_count;
                self.regions[k] = (density, activity, complexity);
                proof {
                    assert(self.regions[k as int] == spec_region_triple(b));
                }
            } else {
                proof {
                    assert(spec_region_triple(b) == (0i64, 0i64, 0i64));
                    assert(spec_sampled_count(b.len() as int) == 0);
                }
            }
            k += 1;
        }
    }
}

/// A bucket never holds more cells than were scanned.
proof fn lemma_bucket_len(
    cells: Seq<(i32, i32)>,
    camx: int,
    camy: int,
    vp: int,
    k: int,
    n: int,
)
    requires
        0 <= n <= cells.len(),
    ensures
        spec_bucket(cells, camx, camy, vp, k, n).len() <= n,
    decreases n,
{
    if n > 0 {
        lemma_bucket_len(cells, camx, camy, vp, k, n - 1);
    }
}

/// Region coordinate of a cell along one axis.
fn region_index(coord: i32, camera: i64, viewport_size: i64, region_size: i64) -> (r: usize)
    requires
        -1_000_000_000_000 <= camera <= 1_000_000_000_000,
        4_000_000 <= viewport_size <= 1_000_000_000_000,
        region_size == viewport_size / 4,
    ensures
        r <= 4,
        r as int == spec_region_coord(coord as int, camera as int, viewport_size as int),
{
    let rel = (coord as i64) * SCALE - camera + viewport_size * 2;
    if rel < 0 {
        0
    } else {
        proof {
            lemma_div_range(viewport_size as int, 4, 4_000_000, 1_000_000_000_000, 4, 4);
            lemma_div_range(
                rel as int,
                region_size as int,
                0,
                0x7fff_ffff_ffff_ffff,
                1_000_000,
                250_000_000_000,
            );
        }
        let q = rel / region_size;
        if q > 4 {
            4
        } else {
            q as usize
        }
    }
}

/// Local intensity of a cell: the occupied fraction of its 3-by-3
/// neighbourhood, capped at one unit.
fn local_intensity(x: i32, y: i32, cells: &Vec<(i32, i32)>) -> (r: i64)
    requires
        cells@.len() <= 100_000_000,
    ensures
        r == spec_local_intensity(x as int, y as int, cells@),
        0 <= r <= SCALE,
{
    let mut neighbor_count: i64 = 0;
    let mut i: usize = 0;
    while i < cells.len()
        invariant
            cells@.len() <= 100_000_000,
            i <= cells@.len(),
            neighbor_count == spec_neighbor_count(x as int, y as int, cells@, i as int),
            0 <= neighbor_count <= i,
        decreases cells@.len() - i,
    {
        let (cx, cy) = cells[i];
        let dx = (cx as i64) - (x as i64);
        let dy = (cy as i64) - (y as i64);
        if -3 <= dx && dx <= 3 && -3 <= dy && dy <= 3 {
            proof {
                assert(0 <= dx * dx <= 9 && 0 <= dy * dy <= 9) by (nonlinear_arith)
                    requires
                        -3 <= dx <= 3,
                        -3 <= dy <= 3,
                ;
            }
            if dx * dx + dy * dy <= 9 {
                neighbor_count += 1;
            }
        }
        i += 1;
    }
    let capped = if neighbor_count > 9 {
        9
    } else {
        neighbor_count
    };
    clamp_fx(capped * 111_111, 0, SCALE)
}

/// Local complexity of a cell: the mean inverse distance over all pairs of
/// its 5-by-5 neighbours, capped at one unit. Fewer than three neighbours
/// score zero.
fn local_complexity(x: i32, y: i32, cells: &Vec<(i32, i32)>) -> (r: i64)
    requires
        cells@.len() <= 100_000_000,
    ensures
        r == spec_local_complexity(x as int, y as int, cells@),
        0 <= r <= SCALE,
{
    let mut neighbors: Vec<(i64, i64)> = Vec::new();
    let mut i: usize = 0;
    while i < cells.len()
        invariant
            cells@.len() <= 100_000_000,
            i <= cells@.len(),
            neighbors@ == spec_offsets(x as int, y as int, cells@, i as int),
            neighbors@.len() <= i,
            forall|m: int|
                0 <= m < neighbors@.len() ==> -5 <= (#[trigger] neighbors@[m]).0 <= 5 && -5 <= neighbors@[m].1 <= 5,
        decreases cells@.len() - i,
    {
        let (cx, cy) = cells[i];
        let dx = (cx as i64) - (x as i64);
        let dy = (cy as i64) - (y as i64);
        if -5 <= dx && dx <= 5 && -5 <= dy && dy <= 5 {
            proof {
                assert(0 <= dx * dx <= 25 && 0 <= dy * dy <= 25) by (nonlinear_arith)
                    requires
                        -5 <= dx <= 5,
                        -5 <= dy <= 5,
                ;
            }
            if dx * dx + dy * dy <= 25 {
                neighbors.push((dx, dy));
            }
        }
        i += 1;
    }
    proof {
        assert(neighbors@ == spec_offsets(x as int, y as int, cells@, cells@.len() as int));
    }
    if neighbors.len() <= 2 {
        return 0;
    }
    let n = neighbors.len();
    let mut regularity: i64 = 0;
    let mut a: usize = 0;
    while a < n
        invariant
            n == neighbors@.len(),
            3 <= n <= 100_000_000,
            forall|m: int|
                0 <= m < n ==> -5 <= (#[trigger] neighbors@[m]).0 <= 5 && -5 <= neighbors@[m].1 <= 5,
            a <= n,
            regularity == spec_regularity(neighbors@, a as int),
            0 <= regularity <= 1_000_000_000_000_000,
        decreases n - a,
    {
        let mut b: usize = 0;
        let mut row: i64 = 0;
        while b < n
            invariant
                n == neighbors@.len(),
                3 <= n <= 100_000_000,
                forall|m: int|
                    0 <= m < n ==> -5 <= (#[trigger] neighbors@[m]).0 <= 5 && -5 <= neighbors@[m].1 <= 5,
                a < n,
                b <= n,
                row == spec_pair_row(neighbors@, a as int, b as int),
                0 <= row <= (b as int) * SCALE,
            decreases n - b,
        {
            let (dx, dy) = neighbors[a];
            let (dx2, dy2) = neighbors[b];
            if !(dx == dx2 && dy == dy2) {
                let ddx = dx - dx2;
                let ddy = dy - dy2;
                proof {
                    assert(0 <= ddx * ddx <= 100 && 0 <= ddy * ddy <= 100) by (nonlinear_arith)
                        requires
                            -10 <= ddx <= 10,
                            -10 <= ddy <= 10,
                    ;
                }
                let d2 = ddx * ddx + ddy * ddy;
                if d2 > 0 {
                    row = row + inv_dist(d2);
                }
            }
            b += 1;
        }
        regularity = regularity + row;
        if regularity > 1_000_000_000_000_000 {
            regularity = 1_000_000_000_000_000;
        }
        a += 1;
    }
    proof {
        lemma_div_range(regularity as int, n as int, 0, 1_000_000_000_000_000, 1, 100_000_000);
    }
    let score = regularity / (n as i64);
    clamp_fx(score, 0, SCALE)
}

/// Inverse distance in micro-units for a squared distance between lattice
/// offsets in a 5-by-5 neighbourhood (so at most 200).
fn inv_dist(d2: i64) -> (r: i64)
    requires
        1 <= d2 <= 200,
    ensures
        r == spec_inv_dist(d2 as int),
        0 <= r <= SCALE,
{
    let s = isqrt_milli(d2);
    proof {
        lemma_div_range(1_000_000_000, s as int, 0, 1_000_000_000, 1_000, 1_000_000);
    }
    let inv = 1_000_000_000 / s;
    clamp_fx(inv, 0, SCALE)
}

/// Floor of `1000 * sqrt(d2)` for small squared distances, by search over
/// the scaled square.
fn isqrt_milli(d2: i64) -> (s: i64)
    requires
        1 <= d2 <= 200,
    ensures
        1_000 <= s <= 1_000_000,
        s == spec_isqrt_milli(d2 as int),
        (s as int) * (s as int) <= (d2 as int) * 1_000_000,
{
    let target = d2 * 1_000_000;
    let mut lo: i64 = 1_000;
    let mut hi: i64 = 15_000;
    proof {
        assert(1_000_000 <= target && target < 225_000_000) by (nonlinear_arith)
            requires
                1 <= d2 <= 200,
                target == d2 * 1_000_000,
        ;
    }
    while lo + 1 < hi
        invariant
            1_000 <= lo < hi <= 15_000,
            target == d2 * 1_000_000,
            1 <= d2 <= 200,
            (lo as int) * (lo as int) <= target as int,
            (target as int) < (hi as int) * (hi as int),
        decreases hi - lo,
    {
        let mid = lo + (hi - lo) / 2;
        proof {
            lemma_div_range(hi as int - lo as int, 2, 0, 14_000, 2, 2);
            assert(0 <= mid * mid <= 225_000_000) by (nonlinear_arith)
                requires
                    1_000 <= mid <= 15_000,
            ;
        }
        if mid * mid <= target {
            lo = mid;
        } else {
            hi = mid;
        }
    }
    proof {
        assert((target as int) < (lo as int + 1) * (lo as int + 1));
        lemma_isqrt_step_fixes(target as int, 1_000, lo as int, 14_000);
    }
    lo
}

/// The bounded search settles on the unique `s` with
/// `s^2 <= n < (s + 1)^2`.
proof fn lemma_isqrt_step_fixes(n: int, s0: int, s: int, fuel: nat)
    requires
        1_000 <= s0 <= s,
        s - s0 <= fuel,
        s * s <= n,
        n < (s + 1) * (s + 1),
    ensures
        spec_isqrt_step(n, s0, fuel) == s,
    decreases s - s0,
{
    if s0 == s {
    } else {
        assert((s0 + 1) * (s0 + 1) <= s * s) by (nonlinear_arith)
            requires
                0 <= s0 + 1 <= s,
        ;
        lemma_isqrt_step_fixes(n, s0 + 1, s, (fuel - 1) as nat);
    }
}

} // verus!
