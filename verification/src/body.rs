//! The Body: a Van der Pol oscillator as the affective heartbeat, a 64-cell
//! tension grid as the flesh that bears and diffuses perturbation, and a
//! four-factor mapping that sets the oscillator's damping from lived state.
//! The body reads its own tension field into a discrete `AffectState`, and
//! that affect becomes the `PredictiveStance` that governs how the mind may
//! learn this tick.
use vstd::prelude::*;
use crate::genome::Genome;
use crate::q88::Q8_8;

verus! {

pub const GRID: usize = 8;

pub const CELLS: usize = 64;

// ---------------------------------------------------------------------------
// Topology: the flesh
// ---------------------------------------------------------------------------

/// An 8x8 tension grid, row-major. A surface ring surrounds a deep 2x2 core,
/// so that "breach" (core turbulence out of proportion to the surface) is a
/// meaningful signal of containment failure.
#[derive(Clone, Copy, Debug, PartialEq)]
pub struct Topology {
    pub tension: [Q8_8; CELLS],
}

/// The four central cells (rows 3-4, cols 3-4) form the deep core.
pub open spec fn is_core_spec(i: int) -> bool {
    i == 27 || i == 28 || i == 35 || i == 36
}

fn is_core(i: usize) -> (r: bool)
    ensures
        r == is_core_spec(i as int),
{
    i == 27 || i == 28 || i == 35 || i == 36
}

pub open spec fn zero() -> Q8_8 {
    Q8_8 { raw: 0 }
}

pub open spec fn one() -> Q8_8 {
    Q8_8 { raw: 256 }
}

/// Saturating running sum of the first `n` cells, in order.
pub open spec fn sum_first(s: Seq<Q8_8>, n: int) -> Q8_8
    decreases n,
{
    if n <= 0 {
        zero()
    } else {
        sum_first(s, n - 1).spec_add(s[n - 1])
    }
}

/// Saturating running sum of `|cell|` over the first `n` cells.
pub open spec fn abs_sum_first(s: Seq<Q8_8>, n: int) -> Q8_8
    decreases n,
{
    if n <= 0 {
        zero()
    } else {
        abs_sum_first(s, n - 1).spec_add(s[n - 1].spec_abs())
    }
}

/// Saturating running sum of squared deviations from `mean`, first `n` cells.
pub open spec fn sq_dev_first(s: Seq<Q8_8>, mean: Q8_8, n: int) -> Q8_8
    decreases n,
{
    if n <= 0 {
        zero()
    } else {
        let d = s[n - 1].spec_sub(mean);
        sq_dev_first(s, mean, n - 1).spec_add(d.spec_mul(d))
    }
}

/// Saturating running sum over the first `n` cells that are (or are not) core.
pub open spec fn sum_where(s: Seq<Q8_8>, core: bool, n: int) -> Q8_8
    decreases n,
{
    if n <= 0 {
        zero()
    } else if is_core_spec(n - 1) == core {
        sum_where(s, core, n - 1).spec_add(s[n - 1])
    } else {
        sum_where(s, core, n - 1)
    }
}

/// Saturating running sum of squared deviations over core (or surface) cells.
pub open spec fn sq_dev_where(s: Seq<Q8_8>, core: bool, mean: Q8_8, n: int) -> Q8_8
    decreases n,
{
    if n <= 0 {
        zero()
    } else if is_core_spec(n - 1) == core {
        let d = s[n - 1].spec_sub(mean);
        sq_dev_where(s, core, mean, n - 1).spec_add(d.spec_mul(d))
    } else {
        sq_dev_where(s, core, mean, n - 1)
    }
}

/// Number of the first `n` cells that are (or are not) core.
pub open spec fn count_where(core: bool, n: int) -> int
    decreases n,
{
    if n <= 0 {
        0
    } else if is_core_spec(n - 1) == core {
        count_where(core, n - 1) + 1
    } else {
        count_where(core, n - 1)
    }
}

/// Total variance of the tension field, capped at 1.0.
pub open spec fn spec_disequilibrium(s: Seq<Q8_8>) -> Q8_8 {
    let mean = sum_first(s, 64).spec_div_i16(64);
    sq_dev_first(s, mean, 64).spec_div_i16(64).spec_min(one())
}

/// Mean absolute tension, capped at 1.0.
pub open spec fn spec_mean_abs(s: Seq<Q8_8>) -> Q8_8 {
    abs_sum_first(s, 64).spec_div_i16(64).spec_min(one())
}

/// (variance of the 60 surface cells, variance of the 4 core cells).
pub open spec fn spec_compartment_variance(s: Seq<Q8_8>) -> (Q8_8, Q8_8) {
    let ma = sum_where(s, false, 64).spec_div_i16(60);
    let mb = sum_where(s, true, 64).spec_div_i16(4);
    (sq_dev_where(s, false, ma, 64).spec_div_i16(60), sq_dev_where(s, true, mb, 64).spec_div_i16(4))
}

/// Saturating running sum of `column * |cell|` (or `row * |cell|`).
pub open spec fn moment_first(s: Seq<Q8_8>, by_row: bool, n: int) -> Q8_8
    decreases n,
{
    if n <= 0 {
        zero()
    } else {
        let i = n - 1;
        let coord = if by_row {
            i / 8
        } else {
            i % 8
        };
        moment_first(s, by_row, n - 1).spec_add(
            Q8_8 { raw: (coord * 256) as i16 }.spec_mul(s[i].spec_abs()),
        )
    }
}

/// Offset of the |tension|-weighted centroid from the grid center, scaled
/// so the grid corner is 1.0; zero when there is (almost) no tension.
pub open spec fn spec_anisotropy(s: Seq<Q8_8>) -> Q8_8 {
    let tw = abs_sum_first(s, 64);
    if tw.raw < 5 {
        zero()
    } else {
        let cx = moment_first(s, false, 64).spec_div(tw);
        let cy = moment_first(s, true, 64).spec_div(tw);
        let center = Q8_8 { raw: 896 };
        let dx = cx.spec_sub(center);
        let dy = cy.spec_sub(center);
        let dist = dx.spec_mul(dx).spec_add(dy.spec_mul(dy)).spec_sqrt();
        dist.spec_div(Q8_8 { raw: 1267 }).spec_min(one())
    }
}

/// Core variance relative to surface variance; zero for a quiet body.
pub open spec fn spec_breach(s: Seq<Q8_8>) -> Q8_8 {
    let (va, vb) = spec_compartment_variance(s);
    if spec_mean_abs(s).raw < 18 {
        zero()
    } else {
        let denom = va.spec_add(Q8_8 { raw: 13 });
        if denom.raw > 0 {
            vb.spec_div(denom).spec_min(one())
        } else {
            zero()
        }
    }
}

/// Three spatial indices the body extracts from its own tension field.
#[derive(Clone, Copy, Debug)]
pub struct SomaticFeatures {
    pub disequilibrium: Q8_8,
    pub anisotropy: Q8_8,
    pub breach: Q8_8,
    pub mean_tension: Q8_8,
}

pub open spec fn spec_features(s: Seq<Q8_8>) -> SomaticFeatures {
    SomaticFeatures {
        disequilibrium: spec_disequilibrium(s),
        anisotropy: spec_anisotropy(s),
        breach: spec_breach(s),
        mean_tension: spec_mean_abs(s),
    }
}

/// The tension grid after a perturbation at `idx`, clamped to [-2, 2].
pub open spec fn spec_inject(s: Seq<Q8_8>, idx: int, amount: Q8_8) -> Seq<Q8_8> {
    if 0 <= idx < 64 {
        s.update(
            idx,
            s[idx].spec_add(amount).spec_clamp(Q8_8 { raw: -512i16 }, Q8_8 { raw: 512 }),
        )
    } else {
        s
    }
}

/// Sum of (neighbor - here) over the 4-neighborhood, in the order up, down,
/// left, right, saturating at each step.
pub open spec fn laplacian(s: Seq<Q8_8>, i: int) -> Q8_8 {
    let r = i / 8;
    let c = i % 8;
    let here = s[i];
    let l1 = if r > 0 {
        zero().spec_add(s[i - 8].spec_sub(here))
    } else {
        zero()
    };
    let l2 = if r + 1 < 8 {
        l1.spec_add(s[i + 8].spec_sub(here))
    } else {
        l1
    };
    let l3 = if c > 0 {
        l2.spec_add(s[i - 1].spec_sub(here))
    } else {
        l2
    };
    if c + 1 < 8 {
        l3.spec_add(s[i + 1].spec_sub(here))
    } else {
        l3
    }
}

/// The flow into cell `i` in one diffusion step.
pub open spec fn diffusion_delta(s: Seq<Q8_8>, i: int, rate: Q8_8) -> Q8_8 {
    laplacian(s, i).spec_mul(rate)
}

/// The new tension of cell `i`: diffusion, then relaxation toward zero by
/// 0.04 of itself.
pub open spec fn diffused_cell(s: Seq<Q8_8>, i: int, rate: Q8_8) -> Q8_8 {
    let n = s[i].spec_add(diffusion_delta(s, i, rate));
    n.spec_sub(n.spec_mul(Q8_8 { raw: 10 }))
}

/// Saturating running sum of |flow| over the first `n` cells.
pub open spec fn flow_first(s: Seq<Q8_8>, rate: Q8_8, n: int) -> Q8_8
    decreases n,
{
    if n <= 0 {
        zero()
    } else {
        flow_first(s, rate, n - 1).spec_add(diffusion_delta(s, n - 1, rate).spec_abs())
    }
}

/// Diffusion rate: coupling * (dt * 20), so that at dt = 0.05 the rate is
/// about the coupling itself.
pub open spec fn diffusion_rate(coupling: Q8_8, dt: Q8_8) -> Q8_8 {
    coupling.spec_mul(dt.spec_mul(Q8_8 { raw: 5120 }))
}

/// The grid after one diffusion step.
pub open spec fn spec_diffused(s: Seq<Q8_8>, rate: Q8_8) -> Seq<Q8_8> {
    Seq::new(64, |i: int| diffused_cell(s, i, rate))
}

impl Topology {
    pub fn new() -> (r: Topology)
        ensures
            forall|i: int| 0 <= i < 64 ==> r.tension[i] == zero(),
    {
        Topology { tension: [Q8_8 { raw: 0 }; CELLS] }
    }

    /// Total variance of the tension field: raw metabolic load.
    pub fn disequilibrium(&self) -> (r: Q8_8)
        ensures
            r == spec_disequilibrium(self.tension@),
    {
        let ghost s = self.tension@;
        let mut sum = Q8_8 { raw: 0 };
        let mut i: usize = 0;
        while i < CELLS
            invariant
                i <= CELLS,
                s == self.tension@,
                sum == sum_first(s, i as int),
            decreases CELLS - i,
        {
            sum = sum.add(self.tension[i]);
            i = i + 1;
        }
        let mean = sum.div_i16(64);
        let mut var = Q8_8 { raw: 0 };
        let mut j: usize = 0;
        while j < CELLS
            invariant
                j <= CELLS,
                s == self.tension@,
                var == sq_dev_first(s, mean, j as int),
            decreases CELLS - j,
        {
            let d = self.tension[j].sub(mean);
            var = var.add(d.mul(d));
            j = j + 1;
        }
        var.div_i16(64).min(Q8_8 { raw: 256 })
    }

    fn mean_abs(&self) -> (r: Q8_8)
        ensures
            r == spec_mean_abs(self.tension@),
    {
        let ghost s = self.tension@;
        let mut acc = Q8_8 { raw: 0 };
        let mut i: usize = 0;
        while i < CELLS
            invariant
                i <= CELLS,
                s == self.tension@,
                acc == abs_sum_first(s, i as int),
            decreases CELLS - i,
        {
            acc = acc.add(self.tension[i].abs());
            i = i + 1;
        }
        acc.div_i16(64).min(Q8_8 { raw: 256 })
    }

    /// (variance of surface, variance of core).
    fn compartment_variance(&self) -> (r: (Q8_8, Q8_8))
        ensures
            r == spec_compartment_variance(self.tension@),
    {
        let ghost s = self.tension@;
        let mut sa = Q8_8 { raw: 0 };
        let mut sb = Q8_8 { raw: 0 };
        let mut na: i16 = 0;
        let mut nb: i16 = 0;
        let mut i: usize = 0;
        while i < CELLS
            invariant
                i <= CELLS,
                s == self.tension@,
                sa == sum_where(s, false, i as int),
                sb == sum_where(s, true, i as int),
                na == count_where(false, i as int),
                nb == count_where(true, i as int),
                0 <= na <= i,
                0 <= nb <= i,
            decreases CELLS - i,
        {
            if is_core(i) {
                sb = sb.add(self.tension[i]);
                nb = nb + 1;
            } else {
                sa = sa.add(self.tension[i]);
                na = na + 1;
            }
            i = i + 1;
        }
        assert(count_where(false, 64) == 60 && count_where(true, 64) == 4) by {
            reveal_with_fuel(count_where, 65);
        }
        let na1 = if na < 1 {
            1
        } else {
            na
        };
        let nb1 = if nb < 1 {
            1
        } else {
            nb
        };
        let ma = sa.div_i16(na1);
        let mb = sb.div_i16(nb1);
        let mut va = Q8_8 { raw: 0 };
        let mut vb = Q8_8 { raw: 0 };
        let mut j: usize = 0;
        while j < CELLS
            invariant
                j <= CELLS,
                s == self.tension@,
                va == sq_dev_where(s, false, ma, j as int),
                vb == sq_dev_where(s, true, mb, j as int),
            decreases CELLS - j,
        {
            if is_core(j) {
                let d = self.tension[j].sub(mb);
                vb = vb.add(d.mul(d));
            } else {
                let d = self.tension[j].sub(ma);
                va = va.add(d.mul(d));
            }
            j = j + 1;
        }
        (va.div_i16(na1), vb.div_i16(nb1))
    }

    /// Inject a perturbation at a cell, clamped to the body's tolerance
    /// [-2, 2]. An index outside the grid changes nothing.
    pub fn inject(&mut self, idx: usize, amount: Q8_8)
        ensures
            final(self).tension@ == spec_inject(old(self).tension@, idx as int, amount),
    {
        if idx < CELLS {
            let v = self.tension[idx].add(amount).clamp(Q8_8 { raw: -512 }, Q8_8 { raw: 512 });
            self.tension[idx] = v;
        }
    }

    /// Diffuse tension across the 4-neighborhood (a discrete Laplacian),
    /// scaled by `coupling * (dt * 20)`, with passive relaxation toward zero.
    /// Returns the total absolute flow.
    pub fn diffuse(&mut self, coupling: Q8_8, dt: Q8_8) -> (flow: Q8_8)
        ensures
            final(self).tension@ == spec_diffused(old(self).tension@, diffusion_rate(coupling, dt)),
            flow == flow_first(old(self).tension@, diffusion_rate(coupling, dt), 64),
    {
        let rate = coupling.mul(dt.mul(Q8_8 { raw: 5120 }));
        let ghost s = self.tension@;
        let mut next = self.tension;
        let mut flow = Q8_8 { raw: 0 };
        let mut i: usize = 0;
        while i < CELLS
            invariant
                i <= CELLS,
                s == self.tension@,
                next@.len() == 64,
                forall|k: int| 0 <= k < i ==> next@[k] == diffused_cell(s, k, rate),
                flow == flow_first(s, rate, i as int),
            decreases CELLS - i,
        {
            let r = i / GRID;
            let c = i % GRID;
            let here = self.tension[i];
            let mut lap = Q8_8 { raw: 0 };
            if r > 0 {
                lap = lap.add(self.tension[i - GRID].sub(here));
            }
            if r + 1 < GRID {
                lap = lap.add(self.tension[i + GRID].sub(here));
            }
            if c > 0 {
                lap = lap.add(self.tension[i - 1].sub(here));
            }
            if c + 1 < GRID {
                lap = lap.add(self.tension[i + 1].sub(here));
            }
            assert(lap == laplacian(s, i as int));
            let delta = lap.mul(rate);
            flow = flow.add(delta.abs());
            let n1 = here.add(delta);
            // Passive relaxation toward zero (tissue heals).
            let n2 = n1.sub(n1.mul(Q8_8 { raw: 10 }));
            next[i] = n2;
            i = i + 1;
        }
        self.tension = next;
        assert(self.tension@ =~= spec_diffused(s, rate));
        flow
    }

    /// Extract the spatial somatic features the body feels.
    pub fn extract_features(&self) -> (r: SomaticFeatures)
        ensures
            r == spec_features(self.tension@),
    {
        let ghost s = self.tension@;
        let disequilibrium = self.disequilibrium();
        let mean_tension = self.mean_abs();

        // Anisotropy: |tension|-weighted centroid offset from grid center.
        let mut tw = Q8_8 { raw: 0 };
        let mut xs = Q8_8 { raw: 0 };
        let mut ys = Q8_8 { raw: 0 };
        let mut i: usize = 0;
        while i < CELLS
            invariant
                i <= CELLS,
                s == self.tension@,
                tw == abs_sum_first(s, i as int),
                xs == moment_first(s, false, i as int),
                ys == moment_first(s, true, i as int),
            decreases CELLS - i,
        {
            let m = self.tension[i].abs();
            let col = Q8_8 { raw: ((i % GRID) * 256) as i16 };
            let row = Q8_8 { raw: ((i / GRID) * 256) as i16 };
            tw = tw.add(m);
            xs = xs.add(col.mul(m));
            ys = ys.add(row.mul(m));
            i = i + 1;
        }
        let anisotropy = if tw.raw < 5 {
            Q8_8 { raw: 0 }
        } else {
            let cx = xs.div(tw);
            let cy = ys.div(tw);
            let center = Q8_8 { raw: 896 };
            let dx = cx.sub(center);
            let dy = cy.sub(center);
            let dist = dx.mul(dx).add(dy.mul(dy)).sqrt();
            dist.div(Q8_8 { raw: 1267 }).min(Q8_8 { raw: 256 })
        };

        // Breach: the deep core carrying tension out of proportion to the
        // surface. Gated on absolute mean tension: a quiet body cannot be
        // breached.
        let (va, vb) = self.compartment_variance();
        let breach = if mean_tension.raw < 18 {
            Q8_8 { raw: 0 }
        } else {
            let denom = va.add(Q8_8 { raw: 13 });
            if denom.raw > 0 {
                vb.div(denom).min(Q8_8 { raw: 256 })
            } else {
                Q8_8 { raw: 0 }
            }
        };
        SomaticFeatures { disequilibrium, anisotropy, breach, mean_tension }
    }
}

/// The grid at rest: no tension anywhere.
pub open spec fn rest_grid() -> Seq<Q8_8> {
    Seq::new(64, |i: int| zero())
}

proof fn lemma_rest_folds(rate: Q8_8, n: int)
    requires
        0 <= n <= 64,
    ensures
        sum_first(rest_grid(), n) == zero(),
        abs_sum_first(rest_grid(), n) == zero(),
        sq_dev_first(rest_grid(), zero(), n) == zero(),
        sum_where(rest_grid(), true, n) == zero(),
        sum_where(rest_grid(), false, n) == zero(),
        sq_dev_where(rest_grid(), true, zero(), n) == zero(),
        sq_dev_where(rest_grid(), false, zero(), n) == zero(),
        moment_first(rest_grid(), true, n) == zero(),
        moment_first(rest_grid(), false, n) == zero(),
        flow_first(rest_grid(), rate, n) == zero(),
    decreases n,
{
    if n > 0 {
        lemma_rest_folds(rate, n - 1);
        let i = n - 1;
        assert(laplacian(rest_grid(), i) == zero());
        let coord_r = i / 8;
        let coord_c = i % 8;
        assert(Q8_8 { raw: (coord_r * 256) as i16 }.spec_mul(zero()) == zero());
        assert(Q8_8 { raw: (coord_c * 256) as i16 }.spec_mul(zero()) == zero());
    }
}

/// A body at rest stays at rest: diffusion leaves the empty grid unchanged
/// with no flow, and the empty grid reads no disequilibrium, no anisotropy,
/// no breach and no tension. More generally, a quiet body (mean tension
/// below 18/256) cannot be breached.
pub proof fn lemma_rest_is_fixed_point(rate: Q8_8, s: Seq<Q8_8>)
    ensures
        spec_diffused(rest_grid(), rate) == rest_grid(),
        flow_first(rest_grid(), rate, 64) == zero(),
        spec_features(rest_grid()) == (SomaticFeatures {
            disequilibrium: zero(),
            anisotropy: zero(),
            breach: zero(),
            mean_tension: zero(),
        }),
        spec_mean_abs(s).raw < 18 ==> spec_breach(s) == zero(),
{
    lemma_rest_folds(rate, 64);
    assert forall|i: int| 0 <= i < 64 implies diffused_cell(rest_grid(), i, rate) == zero() by {
        assert(laplacian(rest_grid(), i) == zero());
    }
    assert(spec_diffused(rest_grid(), rate) =~= rest_grid());
}

/// Cells `i` and `j` of the 8x8 grid share an edge: same row and adjacent
/// columns, or same column and adjacent rows.
pub open spec fn grid_adjacent(i: int, j: int) -> bool {
    &&& 0 <= i < 64
    &&& 0 <= j < 64
    &&& {
        ||| (i / 8 == j / 8 && (i % 8 - j % 8 == 1 || j % 8 - i % 8 == 1))
        ||| (i % 8 == j % 8 && (i / 8 - j / 8 == 1 || j / 8 - i / 8 == 1))
    }
}

/// Diffusion is local to the grid: the new tension of a cell depends only on
/// that cell and the cells sharing an edge with it. Two grids that agree
/// there give the cell the same new tension, and (with no neighbour tension)
/// a cell at rest stays at rest.
pub proof fn lemma_diffusion_is_local(s: Seq<Q8_8>, t: Seq<Q8_8>, rate: Q8_8, i: int)
    requires
        s.len() == 64,
        t.len() == 64,
        0 <= i < 64,
        s[i] == t[i],
        forall|j: int| grid_adjacent(i, j) ==> s[j] == t[j],
    ensures
        spec_diffused(s, rate)[i] == spec_diffused(t, rate)[i],
        diffusion_delta(s, i, rate) == diffusion_delta(t, i, rate),
{
    let r = i / 8;
    let c = i % 8;
    if r > 0 {
        assert(grid_adjacent(i, i - 8));
    }
    if r + 1 < 8 {
        assert(grid_adjacent(i, i + 8));
    }
    if c > 0 {
        assert(grid_adjacent(i, i - 1));
    }
    if c + 1 < 8 {
        assert(grid_adjacent(i, i + 1));
    }
}

/// The total flow of a diffusion step is never negative.
pub proof fn lemma_flow_nonnegative(s: Seq<Q8_8>, rate: Q8_8, n: int)
    ensures
        flow_first(s, rate, n).raw >= 0,
    decreases n,
{
    if n > 0 {
        lemma_flow_nonnegative(s, rate, n - 1);
    }
}

/// Tension placed in one cell of an empty grid flows, in one step, equally
/// into each cell that shares an edge with it and into no other cell.
pub proof fn lemma_single_source_spreads_to_neighbours(j: int, v: Q8_8, rate: Q8_8, i: int, k: int)
    requires
        0 <= j < 64,
        0 <= i < 64,
        0 <= k < 64,
    ensures
        i != j && !grid_adjacent(i, j) ==> spec_diffused(rest_grid().update(j, v), rate)[i]
            == zero(),
        grid_adjacent(i, j) && grid_adjacent(k, j) ==> spec_diffused(
            rest_grid().update(j, v),
            rate,
        )[i] == spec_diffused(rest_grid().update(j, v), rate)[k],
{
    let s = rest_grid().update(j, v);
    assert(s.len() == 64);
    if i != j && !grid_adjacent(i, j) {
        lemma_diffusion_is_local(s, rest_grid(), rate, i);
        lemma_rest_is_fixed_point(rate, s);
    }
    if grid_adjacent(i, j) && grid_adjacent(k, j) {
        lemma_neighbour_gets_source(j, v, rate, i);
        lemma_neighbour_gets_source(j, v, rate, k);
    }
}

/// A neighbour of the only tense cell sees exactly that cell's tension as
/// its Laplacian.
proof fn lemma_neighbour_gets_source(j: int, v: Q8_8, rate: Q8_8, i: int)
    requires
        0 <= j < 64,
        grid_adjacent(i, j),
    ensures
        laplacian(rest_grid().update(j, v), i) == v,
{
    let s = rest_grid().update(j, v);
    let r = i / 8;
    let c = i % 8;
    assert(s[i] == zero());
    assert(v.spec_sub(zero()) == v);
    assert(zero().spec_sub(zero()) == zero());
    assert(zero().spec_add(v) == v);
    assert(v.spec_add(zero()) == v);
    assert(zero().spec_add(zero()) == zero());
}

// ---------------------------------------------------------------------------
// Affect and stance
// ---------------------------------------------------------------------------

/// Discrete phenomenological state of the body.
#[derive(Clone, Copy, PartialEq, Eq, Structural, Debug)]
pub enum AffectState {
    /// Calm, coherent, trusting: the baseline limit cycle.
    Equilibrium,
    /// Metabolically taxed but structurally intact (tension contained).
    Containment,
    /// Tension has flooded the deep core; trust collapses.
    Breach,
    /// Energy near zero; alive but unresponsive.
    Depletion,
}

/// How the body's state sets the mind's flexibility this tick.
#[derive(Clone, Copy, PartialEq, Eq, Structural, Debug)]
pub enum PredictiveStance {
    Exploratory,
    Defensive,
    Reconstructive,
    Dormant,
}

pub open spec fn spec_stance_from_affect(a: AffectState) -> PredictiveStance {
    match a {
        AffectState::Equilibrium => PredictiveStance::Exploratory,
        AffectState::Containment => PredictiveStance::Defensive,
        AffectState::Breach => PredictiveStance::Reconstructive,
        AffectState::Depletion => PredictiveStance::Dormant,
    }
}

/// Learning-rate multiplier: 1.0, 0.2, 2.0, 0.
pub open spec fn spec_eta_multiplier(s: PredictiveStance) -> Q8_8 {
    match s {
        PredictiveStance::Exploratory => Q8_8 { raw: 256 },
        PredictiveStance::Defensive => Q8_8 { raw: 51 },
        PredictiveStance::Reconstructive => Q8_8 { raw: 512 },
        PredictiveStance::Dormant => Q8_8 { raw: 0 },
    }
}

/// Prior precision: 1.0, 3.0, 0.3, 1.0.
pub open spec fn spec_precision_weight(s: PredictiveStance) -> Q8_8 {
    match s {
        PredictiveStance::Exploratory => Q8_8 { raw: 256 },
        PredictiveStance::Defensive => Q8_8 { raw: 768 },
        PredictiveStance::Reconstructive => Q8_8 { raw: 77 },
        PredictiveStance::Dormant => Q8_8 { raw: 256 },
    }
}

impl PredictiveStance {
    pub fn from_affect(a: AffectState) -> (r: PredictiveStance)
        ensures
            r == spec_stance_from_affect(a),
    {
        match a {
            AffectState::Equilibrium => PredictiveStance::Exploratory,
            AffectState::Containment => PredictiveStance::Defensive,
            AffectState::Breach => PredictiveStance::Reconstructive,
            AffectState::Depletion => PredictiveStance::Dormant,
        }
    }

    /// Learning-rate multiplier on the genome's base rate.
    pub fn eta_multiplier(&self) -> (r: Q8_8)
        ensures
            r == spec_eta_multiplier(*self),
    {
        match self {
            PredictiveStance::Exploratory => Q8_8 { raw: 256 },
            PredictiveStance::Defensive => Q8_8 { raw: 51 },
            PredictiveStance::Reconstructive => Q8_8 { raw: 512 },
            PredictiveStance::Dormant => Q8_8 { raw: 0 },
        }
    }

    /// How authoritative existing priors are during action selection.
    pub fn precision_weight(&self) -> (r: Q8_8)
        ensures
            r == spec_precision_weight(*self),
    {
        match self {
            PredictiveStance::Exploratory => Q8_8 { raw: 256 },
            PredictiveStance::Defensive => Q8_8 { raw: 768 },
            PredictiveStance::Reconstructive => Q8_8 { raw: 77 },
            PredictiveStance::Dormant => Q8_8 { raw: 256 },
        }
    }
}

/// Energy below ~0.10 is depletion; breach above 0.5 is breach; a taxed but
/// contained body (disequilibrium above 0.25, breach below 0.25) is in
/// containment; otherwise equilibrium.
pub open spec fn spec_classify_affect(f: SomaticFeatures, energy: Q8_8) -> AffectState {
    if energy.raw < 25 {
        AffectState::Depletion
    } else if f.breach.raw > 128 {
        AffectState::Breach
    } else if f.disequilibrium.raw > 64 && f.breach.raw < 64 {
        AffectState::Containment
    } else {
        AffectState::Equilibrium
    }
}

/// Classify continuous somatic features and metabolic state into an affect.
pub fn classify_affect(f: &SomaticFeatures, energy: Q8_8) -> (r: AffectState)
    ensures
        r == spec_classify_affect(*f, energy),
{
    if energy.raw < 25 {
        return AffectState::Depletion;
    }
    if f.breach.raw > 128 {
        return AffectState::Breach;
    }
    if f.disequilibrium.raw > 64 && f.breach.raw < 64 {
        return AffectState::Containment;
    }
    AffectState::Equilibrium
}

// ---------------------------------------------------------------------------
// Body: the integrated affective core
// ---------------------------------------------------------------------------

#[derive(Clone, Copy, Debug)]
pub struct Body {
    // Van der Pol affective state.
    pub valence: Q8_8,
    pub arousal: Q8_8,
    pub mu: Q8_8,
    pub target_valence: Q8_8,
    pub target_arousal: Q8_8,
    /// Affective forcing for this tick: the mind's appraisal of how the last
    /// moment went, pushed back onto the oscillator.
    pub drive: Q8_8,
    // Metabolic.
    pub energy: Q8_8,
    pub death_accumulator: u8,
    // Constitutional state (accumulated body truth).
    pub trust: Q8_8,
    pub stability: Q8_8,
    pub coherence: Q8_8,
    // The flesh.
    pub topology: Topology,
    // Current phenomenology.
    pub affect: AffectState,
    pub stance: PredictiveStance,
    pub forcing_detected: bool,
    /// Valence at the end of the previous tick, which coherence compares
    /// against.
    pub prev_valence: Q8_8,
}

/// The integration step, 0.05.
pub open spec fn dt() -> Q8_8 {
    Q8_8 { raw: 13 }
}

/// Driven Van der Pol: du = v, dv = mu (1 - u^2) v - u + F.
pub open spec fn spec_vdp(mu: Q8_8, drive: Q8_8, u: Q8_8, v: Q8_8) -> (Q8_8, Q8_8) {
    let u2 = u.spec_mul(u);
    let cubic = one().spec_sub(u2).spec_mul(v);
    (v, mu.spec_mul(cubic).spec_sub(u).spec_add(drive))
}

/// One classical Runge-Kutta step of the driven oscillator, weights
/// 1/6, 1/3, 1/3, 1/6 in Q8.8.
pub open spec fn spec_rk4(mu: Q8_8, drive: Q8_8, u: Q8_8, v: Q8_8, dt: Q8_8) -> (Q8_8, Q8_8) {
    let h = dt.spec_mul(Q8_8 { raw: 128 });
    let k1 = spec_vdp(mu, drive, u, v);
    let k2 = spec_vdp(mu, drive, u.spec_add(k1.0.spec_mul(h)), v.spec_add(k1.1.spec_mul(h)));
    let k3 = spec_vdp(mu, drive, u.spec_add(k2.0.spec_mul(h)), v.spec_add(k2.1.spec_mul(h)));
    let k4 = spec_vdp(mu, drive, u.spec_add(k3.0.spec_mul(dt)), v.spec_add(k3.1.spec_mul(dt)));
    let r6 = Q8_8 { raw: 43 };
    let r3 = Q8_8 { raw: 85 };
    let wu = k1.0.spec_mul(r6).spec_add(k2.0.spec_mul(r3)).spec_add(k3.0.spec_mul(r3)).spec_add(
        k4.0.spec_mul(r6),
    );
    let wv = k1.1.spec_mul(r6).spec_add(k2.1.spec_mul(r3)).spec_add(k3.1.spec_mul(r3)).spec_add(
        k4.1.spec_mul(r6),
    );
    (u.spec_add(dt.spec_mul(wu)), v.spec_add(dt.spec_mul(wv)))
}

/// Metabolism: tension costs 0.1 * mean_tension * dt; a quiet body that is
/// not full recovers 0.02 * dt; nutrient adds 0.05 of itself; capped at 1.
pub open spec fn spec_metabolize(energy: Q8_8, mean_tension: Q8_8, nutrient: Q8_8) -> Q8_8 {
    let cost = Q8_8 { raw: 26 }.spec_mul(mean_tension).spec_mul(dt());
    let e1 = energy.spec_sub(cost).spec_max(zero());
    let e2 = if mean_tension.raw < 10 && e1.raw < 250 {
        e1.spec_add(Q8_8 { raw: 5 }.spec_mul(dt())).spec_min(one())
    } else {
        e1
    };
    e2.spec_add(nutrient.spec_mul(Q8_8 { raw: 13 })).spec_min(one())
}

/// The four-factor constitution:
/// mu = resting + threat - (trust + stability + coherence)/3 * k + (1 - energy) * 0.2,
/// clamped to [-1, 1]. `threat` is already clamped to [0, 1].
pub open spec fn spec_constitution(
    g: Genome,
    threat: Q8_8,
    trust: Q8_8,
    stability: Q8_8,
    coherence: Q8_8,
    energy: Q8_8,
) -> Q8_8 {
    let resilience = trust.spec_add(stability).spec_add(coherence).spec_mul(
        Q8_8 { raw: 85 },
    ).spec_mul(g.k_resilience);
    let cost_term = one().spec_sub(energy).spec_mul(Q8_8 { raw: 51 });
    g.resting_mu.spec_add(threat).spec_sub(resilience).spec_add(cost_term).spec_clamp(
        Q8_8 { raw: -256i16 },
        one(),
    )
}

/// The death counter after a tick ending with `energy`: one more (saturating
/// at 255) at zero energy, otherwise reset to zero.
pub open spec fn next_death(death: u8, energy: Q8_8) -> u8 {
    if energy.raw == 0 {
        if death == 255 {
            255
        } else {
            (death + 1) as u8
        }
    } else {
        0
    }
}

/// The death counter after `k` consecutive ticks at zero energy.
pub open spec fn death_after_starving(death: u8, k: nat) -> u8
    decreases k,
{
    if k == 0 {
        death
    } else {
        next_death(death_after_starving(death, (k - 1) as nat), zero())
    }
}

/// A body dies of sustained starvation: after `k` consecutive ticks at zero
/// energy the counter is `min(death + k, 255)`, so 100 such ticks always make
/// `is_dead` true; any tick that ends with energy resets it, so the body is
/// alive again.
pub proof fn lemma_starvation_kills(death: u8, k: nat, energy: Q8_8)
    ensures
        death_after_starving(death, k) == (if death + k < 255 {
            death + k
        } else {
            255
        }),
        k >= 100 ==> death_after_starving(death, k) >= 100,
        energy.raw != 0 ==> next_death(death, energy) == 0,
    decreases k,
{
    if k > 0 {
        lemma_starvation_kills(death, (k - 1) as nat, energy);
    }
}

impl Body {
    pub open spec fn features(&self) -> SomaticFeatures {
        spec_features(self.topology.tension@)
    }

    /// Drive for this tick, clamped to [-0.5, 0.5].
    pub open spec fn step_drive(drive: Q8_8) -> Q8_8 {
        drive.spec_clamp(Q8_8 { raw: -128i16 }, Q8_8 { raw: 128 })
    }

    pub open spec fn step_affect(&self) -> AffectState {
        spec_classify_affect(self.features(), self.energy)
    }

    /// A Reconstructive stance while the body is calm means the forcing came
    /// from outside: the body refuses it.
    pub open spec fn step_forcing(&self) -> bool {
        &&& spec_stance_from_affect(self.step_affect()) == PredictiveStance::Reconstructive
        &&& self.features().disequilibrium.raw < 51
        &&& self.features().breach.raw < 64
    }

    pub open spec fn step_stance(&self) -> PredictiveStance {
        if self.step_forcing() {
            PredictiveStance::Defensive
        } else {
            spec_stance_from_affect(self.step_affect())
        }
    }

    pub open spec fn step_energy(&self, nutrient: Q8_8) -> Q8_8 {
        spec_metabolize(self.energy, self.features().mean_tension, nutrient)
    }

    pub open spec fn step_threat(threat: Q8_8) -> Q8_8 {
        threat.spec_clamp(zero(), one())
    }

    pub open spec fn step_mu(&self, g: Genome, threat: Q8_8, nutrient: Q8_8) -> Q8_8 {
        spec_constitution(
            g,
            Body::step_threat(threat),
            self.trust,
            self.stability,
            self.coherence,
            self.step_energy(nutrient),
        )
    }

    /// (valence, arousal) after the oscillator step, clamped to [-1, 1] and [0, 2].
    pub open spec fn step_oscillator(&self, g: Genome, threat: Q8_8, nutrient: Q8_8, drive: Q8_8) -> (
        Q8_8,
        Q8_8,
    ) {
        let (u, v) = spec_rk4(
            self.step_mu(g, threat, nutrient),
            Body::step_drive(drive),
            self.valence.spec_sub(self.target_valence),
            self.arousal.spec_sub(self.target_arousal),
            dt(),
        );
        (
            u.spec_add(self.target_valence).spec_clamp(Q8_8 { raw: -256i16 }, one()),
            v.spec_add(self.target_arousal).spec_clamp(zero(), Q8_8 { raw: 512 }),
        )
    }

    /// The grid after the valence deviation (times 0.4) lands on cell 27, the
    /// threat (times 0.5, when positive) on cell 36, and one diffusion step.
    pub open spec fn step_tension(
        &self,
        g: Genome,
        threat: Q8_8,
        nutrient: Q8_8,
        drive: Q8_8,
    ) -> Seq<Q8_8> {
        let valence = self.step_oscillator(g, threat, nutrient, drive).0;
        let injection = valence.spec_sub(self.target_valence).spec_mul(Q8_8 { raw: 102 });
        let t1 = spec_inject(self.topology.tension@, 27, injection);
        let threat_c = Body::step_threat(threat);
        let t2 = if threat_c.raw > 0 {
            spec_inject(t1, 36, threat_c.spec_mul(Q8_8 { raw: 128 }))
        } else {
            t1
        };
        spec_diffused(t2, diffusion_rate(g.mesh_coupling, dt()))
    }

    pub open spec fn step_features(
        &self,
        g: Genome,
        threat: Q8_8,
        nutrient: Q8_8,
        drive: Q8_8,
    ) -> SomaticFeatures {
        spec_features(self.step_tension(g, threat, nutrient, drive))
    }

    /// Stability moves toward 1 - disequilibrium at the genome's rate.
    pub open spec fn step_stability(&self, g: Genome, threat: Q8_8, nutrient: Q8_8, drive: Q8_8) -> Q8_8 {
        let f2 = self.step_features(g, threat, nutrient, drive);
        let stab_t = one().spec_sub(f2.disequilibrium).spec_clamp(zero(), one());
        Q8_8::spec_lerp(self.stability, stab_t, g.learning_rate)
    }

    /// Trust moves toward 1 - breach at the genome's rate.
    pub open spec fn step_trust(&self, g: Genome, threat: Q8_8, nutrient: Q8_8, drive: Q8_8) -> Q8_8 {
        let f2 = self.step_features(g, threat, nutrient, drive);
        let trust_t = one().spec_sub(f2.breach).spec_clamp(zero(), one());
        Q8_8::spec_lerp(self.trust, trust_t, g.learning_rate)
    }

    /// Coherence moves (at rate 0.1) toward the midpoint of 1 - anisotropy
    /// and the regularity of valence, 1 - |valence - previous valence|.
    pub open spec fn step_coherence(&self, g: Genome, threat: Q8_8, nutrient: Q8_8, drive: Q8_8) -> Q8_8 {
        let f2 = self.step_features(g, threat, nutrient, drive);
        let coh_t = one().spec_sub(f2.anisotropy).spec_clamp(zero(), one());
        let valence = self.step_oscillator(g, threat, nutrient, drive).0;
        let d = valence.raw - self.prev_valence.raw;
        let diff = if d < 0 {
            -d
        } else {
            d
        };
        let regularity = Q8_8 {
            raw: (if 256 - diff < 0 {
                0
            } else {
                256 - diff
            }) as i16,
        };
        let coh_reg = Q8_8::spec_lerp(coh_t, regularity, Q8_8 { raw: 128 });
        Q8_8::spec_lerp(self.coherence, coh_reg, Q8_8 { raw: 26 })
    }

    /// Allostatic drift of the arousal setpoint: up by 1/256 (capped at 1.8)
    /// under load, otherwise held no lower than the genome's setpoint when calm.
    pub open spec fn step_target_arousal(
        &self,
        g: Genome,
        threat: Q8_8,
        nutrient: Q8_8,
        drive: Q8_8,
    ) -> Q8_8 {
        let f2 = self.step_features(g, threat, nutrient, drive);
        if f2.disequilibrium.raw > 64 {
            self.target_arousal.spec_add(Q8_8 { raw: 1 }).spec_min(Q8_8 { raw: 461 })
        } else if f2.disequilibrium.raw < 10 {
            self.target_arousal.spec_sub(zero()).spec_max(g.target_arousal)
        } else {
            self.target_arousal
        }
    }

    /// The stance-forcing defense never fires: a Reconstructive stance comes
    /// only from a Breach affect (breach above 0.5), while the defense asks
    /// for breach below 0.25.
    pub proof fn lemma_forcing_never_fires(&self)
        ensures
            !self.step_forcing(),
            self.step_stance() == spec_stance_from_affect(self.step_affect()),
    {
    }

    pub fn new(g: &Genome) -> (r: Body)
        ensures
            r.valence == (Q8_8 { raw: 20 }),
            r.arousal == g.target_arousal,
            r.mu == g.resting_mu,
            r.target_valence == zero(),
            r.target_arousal == g.target_arousal,
            r.drive == zero(),
            r.energy == (Q8_8 { raw: 230 }),
            r.death_accumulator == 0,
            r.trust == (Q8_8 { raw: 179 }),
            r.stability == (Q8_8 { raw: 179 }),
            r.coherence == (Q8_8 { raw: 179 }),
            forall|i: int| 0 <= i < 64 ==> r.topology.tension[i] == zero(),
            r.affect == AffectState::Equilibrium,
            r.stance == PredictiveStance::Exploratory,
            !r.forcing_detected,
            r.prev_valence == zero(),
    {
        Body {
            // Born a hair off the setpoint, so the limit cycle has somewhere
            // to move from.
            valence: Q8_8 { raw: 20 },
            arousal: g.target_arousal,
            mu: g.resting_mu,
            target_valence: Q8_8 { raw: 0 },
            target_arousal: g.target_arousal,
            drive: Q8_8 { raw: 0 },
            energy: Q8_8 { raw: 230 },
            death_accumulator: 0,
            trust: Q8_8 { raw: 179 },
            stability: Q8_8 { raw: 179 },
            coherence: Q8_8 { raw: 179 },
            topology: Topology::new(),
            affect: AffectState::Equilibrium,
            stance: PredictiveStance::Exploratory,
            forcing_detected: false,
            prev_valence: Q8_8 { raw: 0 },
        }
    }

    fn vdp_derivative(&self, u: Q8_8, v: Q8_8) -> (r: (Q8_8, Q8_8))
        ensures
            r == spec_vdp(self.mu, self.drive, u, v),
    {
        let du = v;
        let u2 = u.mul(u);
        let cubic = Q8_8 { raw: 256 }.sub(u2).mul(v);
        let dv = self.mu.mul(cubic).sub(u).add(self.drive);
        (du, dv)
    }

    fn rk4_step(&self, u: &mut Q8_8, v: &mut Q8_8, dt: Q8_8)
        ensures
            (*final(u), *final(v)) == spec_rk4(self.mu, self.drive, *old(u), *old(v), dt),
    {
        let h = dt.mul(Q8_8 { raw: 128 });
        let k1 = self.vdp_derivative(*u, *v);
        let k2 = self.vdp_derivative(u.add(k1.0.mul(h)), v.add(k1.1.mul(h)));
        let k3 = self.vdp_derivative(u.add(k2.0.mul(h)), v.add(k2.1.mul(h)));
        let k4 = self.vdp_derivative(u.add(k3.0.mul(dt)), v.add(k3.1.mul(dt)));
        let r6 = Q8_8 { raw: 43 };
        let r3 = Q8_8 { raw: 85 };
        let wu = k1.0.mul(r6).add(k2.0.mul(r3)).add(k3.0.mul(r3)).add(k4.0.mul(r6));
        let wv = k1.1.mul(r6).add(k2.1.mul(r3)).add(k3.1.mul(r3)).add(k4.1.mul(r6));
        *u = u.add(dt.mul(wu));
        *v = v.add(dt.mul(wv));
    }

    /// One body update. `threat` is the externally imposed prediction error,
    /// `nutrient` environmental sustenance, `drive` the mind's appraisal of
    /// the last moment. Returns the affect the body woke into, so the mind
    /// can read the body's vote before it cognizes.
    #[verifier::spinoff_prover]
    #[verifier::rlimit(60)]
    pub fn step(&mut self, g: &Genome, threat: Q8_8, nutrient: Q8_8, drive: Q8_8) -> (r: AffectState)
        ensures
            r == old(self).step_affect(),
            final(self).affect == r,
            final(self).stance == old(self).step_stance(),
            final(self).forcing_detected == old(self).step_forcing(),
            final(self).drive == Body::step_drive(drive),
            final(self).energy == old(self).step_energy(nutrient),
            final(self).death_accumulator == next_death(old(self).death_accumulator, final(self).energy),
            final(self).mu == old(self).step_mu(*g, threat, nutrient),
            (final(self).valence, final(self).arousal) == old(self).step_oscillator(
                *g,
                threat,
                nutrient,
                drive,
            ),
            final(self).topology.tension@ == old(self).step_tension(*g, threat, nutrient, drive),
            final(self).stability == old(self).step_stability(*g, threat, nutrient, drive),
            final(self).trust == old(self).step_trust(*g, threat, nutrient, drive),
            final(self).coherence == old(self).step_coherence(*g, threat, nutrient, drive),
            final(self).prev_valence == final(self).valence,
            final(self).target_arousal == old(self).step_target_arousal(*g, threat, nutrient, drive),
            final(self).target_valence == old(self).target_valence,
            // The constitution and the oscillator stay in their ranges.
            -256 <= final(self).mu.raw <= 256,
            -256 <= final(self).valence.raw <= 256,
            0 <= final(self).arousal.raw <= 512,
            final(self).energy.raw <= 256,
            // The arousal setpoint wears upward by at most 1/256 per tick, never
            // above 1.8, and never below the genome's setpoint.
            g.target_arousal.raw <= old(self).target_arousal.raw <= 461 ==> {
                &&& g.target_arousal.raw <= final(self).target_arousal.raw <= 461
                &&& (final(self).target_arousal.raw == old(self).target_arousal.raw
                    || final(self).target_arousal.raw == old(self).target_arousal.raw + 1)
            },
    {
        let ghost b = *self;
        // The mind's appraisal of the last moment now forces the oscillator.
        self.drive = drive.clamp(Q8_8 { raw: -128 }, Q8_8 { raw: 128 });
        // 1. The body wakes into a stance set by its tension field.
        let features = self.topology.extract_features();
        self.affect = classify_affect(&features, self.energy);
        self.stance = PredictiveStance::from_affect(self.affect);
        // 1a. Stance-forcing defense: told to shatter while calm, the body
        // clings to its priors instead.
        self.forcing_detected = false;
        if self.stance == PredictiveStance::Reconstructive && features.disequilibrium.raw < 51
            && features.breach.raw < 64 {
            self.stance = PredictiveStance::Defensive;
            self.forcing_detected = true;
        }
        // 2. Temporal step (0.05).
        let dt = Q8_8 { raw: 13 };
        // 3. Metabolism.
        let mean_tension = features.mean_tension;
        let cost = Q8_8 { raw: 26 }.mul(mean_tension).mul(dt);
        let mut e = self.energy.sub(cost).max(Q8_8 { raw: 0 });
        if mean_tension.raw < 10 && e.raw < 250 {
            e = e.add(Q8_8 { raw: 5 }.mul(dt)).min(Q8_8 { raw: 256 });
        }
        e = e.add(nutrient.mul(Q8_8 { raw: 13 })).min(Q8_8 { raw: 256 });
        self.energy = e;
        // Consecutive ticks at zero energy are counted (saturating).
        if self.energy.raw == 0 {
            self.death_accumulator = if self.death_accumulator == 255 {
                255
            } else {
                self.death_accumulator + 1
            };
        } else {
            self.death_accumulator = 0;
        }
        // 4. Four-factor mu mapping: the constitution.
        let resting = g.resting_mu;
        let threat_c = threat.clamp(Q8_8 { raw: 0 }, Q8_8 { raw: 256 });
        let resilience = self.trust.add(self.stability).add(self.coherence).mul(
            Q8_8 { raw: 85 },
        ).mul(g.k_resilience);
        let cost_term = Q8_8 { raw: 256 }.sub(self.energy).mul(Q8_8 { raw: 51 });
        self.mu = resting.add(threat_c).sub(resilience).add(cost_term).clamp(
            Q8_8 { raw: -256 },
            Q8_8 { raw: 256 },
        );
        // 5. RK4-integrate the oscillator around its targets.
        let mut u = self.valence.sub(self.target_valence);
        let mut v = self.arousal.sub(self.target_arousal);
        self.rk4_step(&mut u, &mut v, dt);
        self.valence = u.add(self.target_valence).clamp(Q8_8 { raw: -256 }, Q8_8 { raw: 256 });
        self.arousal = v.add(self.target_arousal).clamp(Q8_8 { raw: 0 }, Q8_8 { raw: 512 });
        assert((self.valence, self.arousal) == b.step_oscillator(*g, threat, nutrient, drive));
        // 6. Inject valence deviation into the body center, then diffuse.
        let injection = self.valence.sub(self.target_valence).mul(Q8_8 { raw: 102 });
        self.topology.inject(27, injection);
        // Threat lands on the body as a perturbation it must metabolize.
        if threat_c.raw > 0 {
            self.topology.inject(36, threat_c.mul(Q8_8 { raw: 128 }));
        }
        let _ = self.topology.diffuse(g.mesh_coupling, dt);
        // 7. Constitutional inverse mapping: the body pre-figures the mind.
        let f2 = self.topology.extract_features();
        let eta = g.learning_rate;
        let stab_t = Q8_8 { raw: 256 }.sub(f2.disequilibrium).clamp(
            Q8_8 { raw: 0 },
            Q8_8 { raw: 256 },
        );
        self.stability = Q8_8::lerp(self.stability, stab_t, eta);
        let coh_t = Q8_8 { raw: 256 }.sub(f2.anisotropy).clamp(Q8_8 { raw: 0 }, Q8_8 { raw: 256 });
        let trust_t = Q8_8 { raw: 256 }.sub(f2.breach).clamp(Q8_8 { raw: 0 }, Q8_8 { raw: 256 });
        self.trust = Q8_8::lerp(self.trust, trust_t, eta);
        // 8. Coherence from valence regularity.
        let d: i32 = self.valence.raw as i32 - self.prev_valence.raw as i32;
        let diff: i32 = if d < 0 {
            -d
        } else {
            d
        };
        let reg_raw: i32 = if 256 - diff < 0 {
            0
        } else {
            256 - diff
        };
        let regularity = Q8_8::from_raw(reg_raw as i16);
        let coh_reg = Q8_8::lerp(coh_t, regularity, Q8_8 { raw: 128 });
        self.coherence = Q8_8::lerp(self.coherence, coh_reg, Q8_8 { raw: 26 });
        self.prev_valence = self.valence;
        // 9. Slow allostatic temperament drift (the body's wear pattern).
        if f2.disequilibrium.raw > 64 {
            self.target_arousal = self.target_arousal.add(Q8_8 { raw: 1 }).min(Q8_8 { raw: 461 });
        } else if f2.disequilibrium.raw < 10 {
            self.target_arousal = self.target_arousal.sub(Q8_8 { raw: 0 }).max(g.target_arousal);
        }
        self.affect
    }

    pub fn is_dead(&self) -> (r: bool)
        ensures
            r == (self.death_accumulator >= 100),
    {
        self.death_accumulator >= 100
    }
}

} // verus!
