//! The bookkeeping of the stress and strain passes over a snapshot.
//!
//! A stress pass first sets every cell's stress to zero, then gives each
//! cell the tensor summed over its springs, to which an outside force that
//! is strong enough adds its own term, and last gathers the extremes.

use vstd::prelude::*;
use crate::cell::{Cell, CellView, Pos, Stress, views};
use crate::forces::{ForceFunc, Push, force_func, pin_after, push_of};
use crate::scalar::Scalar;
use crate::settings::Settings;
use crate::simulation::{Link, link_of, spring_link};

verus! {

/// The pattern of `1e-7`: an outside force adds to the stress only if its
/// magnitude is above this.
pub const FAINT_FORCE_BITS: u64 = 0x3E7A_D7F2_9ABC_AF48;

/// The pattern of `1e-10`: a largest stress that is not above this is taken
/// to be one.
pub const FAINT_STRESS_BITS: u64 = 0x3DDB_7CDF_D9D7_BDBB;

/// The pattern of one.
pub const ONE_BITS: u64 = 0x3FF0_0000_0000_0000;

/// What a stress pass reports of a snapshot.
#[derive(Debug, Clone, Copy, PartialEq, Eq, Structural)]
pub struct Stressavg {
    /// The largest stress above zero; zero if there is none.
    pub max_compression: Scalar,
    /// The lowest stress below zero; zero if there is none.
    pub max_tension: Scalar,
    /// The mean of the cells' stress.
    pub avg_stress: Scalar,
    /// The mean of the first entry of the cells' tensors.
    pub avg_x: Scalar,
    /// The mean of the second entry of the cells' tensors.
    pub avg_y: Scalar,
}

/// What a strain pass reports of a snapshot.
#[derive(Debug, Clone, Copy, PartialEq, Eq, Structural)]
pub struct Strainavg {
    /// The largest length of a cell's strain.
    pub maxdisplace: Scalar,
    /// The largest horizontal strain.
    pub maxxoff: Scalar,
    /// The largest vertical strain.
    pub maxyoff: Scalar,
    /// The mean of the cells' strain.
    pub avgstrain: Pos,
}

/// The tensor whose entries are all positive zero.
pub open spec fn zero_tensor() -> Stress {
    Stress {
        a: Scalar { bits: 0 },
        b: Scalar { bits: 0 },
        c: Scalar { bits: 0 },
        d: Scalar { bits: 0 },
    }
}

/// A cell at the start of a stress pass.
pub open spec fn cleared(c: CellView) -> CellView {
    CellView { stress: Some(Scalar { bits: 0 }), tensor_stress: Some(zero_tensor()), ..c }
}

/// The spring by which cell `j` adds to the stress of cell `i`. A cell adds
/// nothing to its own stress; any other adds a term, be it for no spring.
pub open spec fn stress_link_of(c: CellView, i: usize, j: usize) -> Option<Link> {
    if i == j {
        None
    } else {
        Some(link_of(c, j))
    }
}

/// The extremes after one more stress was seen. A NaN changes nothing.
pub open spec fn seen(e: (Scalar, Scalar), stress: Option<Scalar>) -> (Scalar, Scalar) {
    match stress {
        None => e,
        Some(s) => if s.spec_gt(e.0) {
            (s, e.1)
        } else if s.spec_lt(e.1) {
            (e.0, s)
        } else {
            e
        },
    }
}

/// The largest and the lowest stress of a snapshot, both starting at zero.
pub open spec fn extremes(cells: Seq<CellView>) -> (Scalar, Scalar)
    decreases cells.len(),
{
    if cells.len() == 0 {
        (Scalar { bits: 0 }, Scalar { bits: 0 })
    } else {
        seen(extremes(cells.drop_last()), cells.last().stress)
    }
}

/// The larger of a running maximum and a value; the value, where the two
/// do not compare.
pub open spec fn larger(most: Scalar, v: Scalar) -> Scalar {
    if most.spec_gt(v) {
        most
    } else {
        v
    }
}

/// The largest of the values and zero.
pub open spec fn largest_of(values: Seq<Scalar>) -> Scalar
    decreases values.len(),
{
    if values.len() == 0 {
        Scalar { bits: 0 }
    } else {
        larger(largest_of(values.drop_last()), values.last())
    }
}

/// The stress of a snapshot that is largest in magnitude.
pub open spec fn peak_of(a: Stressavg) -> Scalar {
    let tension = Scalar {
        bits: if a.max_tension.bits >= crate::scalar::SIGN_BIT {
            (a.max_tension.bits - crate::scalar::SIGN_BIT) as u64
        } else {
            (a.max_tension.bits + crate::scalar::SIGN_BIT) as u64
        },
    };
    if tension.spec_gt(a.max_compression) {
        tension
    } else {
        a.max_compression
    }
}

/// The last of the largest peaks of the summaries up to the `n`-th.
pub open spec fn top_peak(avgs: Seq<Stressavg>, n: int) -> Scalar
    decreases n,
{
    if n <= 1 {
        peak_of(avgs[0])
    } else if peak_of(avgs[n - 1]).rank() >= top_peak(avgs, n - 1).rank() {
        peak_of(avgs[n - 1])
    } else {
        top_peak(avgs, n - 1)
    }
}

/// One of the peaks of the summaries before the `n`-th is a NaN.
pub open spec fn any_nan_peak(avgs: Seq<Stressavg>, n: int) -> bool {
    exists|k: int| 0 <= k < n && (#[trigger] peak_of(avgs[k])).spec_is_nan()
}

/// A largest stress, or one where it is too faint to scale colours by.
pub open spec fn scale_of(top: Scalar) -> Scalar {
    if top.spec_le(Scalar { bits: FAINT_STRESS_BITS }) {
        Scalar { bits: ONE_BITS }
    } else {
        top
    }
}

/// Starts a stress pass: every cell's stress and tensor are set to zero.
pub fn reset_stress(grid: &mut Vec<Cell>)
    ensures
        final(grid)@.len() == old(grid)@.len(),
        forall|i: int|
            0 <= i < old(grid)@.len() ==> (#[trigger] final(grid)@[i])@ == cleared(old(grid)@[i]@),
{
    let n: usize = grid.len();
    let mut k: usize = 0;
    while k < n
        invariant
            k <= n,
            grid@.len() == n,
            n == old(grid)@.len(),
            forall|i: int| 0 <= i < k ==> (#[trigger] grid@[i])@ == cleared(old(grid)@[i]@),
            forall|i: int| k <= i < n ==> (#[trigger] grid@[i]) == old(grid)@[i],
        decreases n - k,
    {
        let mut c = grid[k].duplicate();
        c.stress = Some(Scalar::zero());
        c.tensor_stress = Some(
            Stress { a: Scalar::zero(), b: Scalar::zero(), c: Scalar::zero(), d: Scalar::zero() },
        );
        grid.set(k, c);
        k = k + 1;
    }
}

/// The spring by which the `j`-th cell adds to the stress of `cell`, the
/// `i`-th of its network; none where the two are one.
pub fn stress_link(cell: &Cell, i: usize, j: usize) -> (l: Option<Link>)
    ensures
        l == stress_link_of(cell@, i, j),
{
    if i == j {
        None
    } else {
        Some(spring_link(cell, j))
    }
}

/// The outside force on `cell` at time `t`, if it is under one. Asking
/// sets the pin of a constrained cell, pinned or not before.
pub fn outside_push(t: Scalar, cell: &mut Cell, i: usize, settings: &Settings) -> (p: Option<Push>)
    ensures
        p == if old(cell).force == ForceFunc::NoForce {
            None
        } else {
            Some(push_of(old(cell).force, t, old(cell).pos.y))
        },
        final(cell)@ == (CellView {
            fixed: pin_after(old(cell).force, t, old(cell).fixed),
            ..old(cell)@
        }),
{
    let variant = cell.force;
    match variant {
        ForceFunc::NoForce => None,
        _ => Some(force_func(&variant, t, cell, i, settings)),
    }
}

/// An outside force of this magnitude adds to the stress.
pub fn is_significant(magnitude: Scalar) -> (r: bool)
    ensures
        r == magnitude.spec_gt(Scalar { bits: FAINT_FORCE_BITS }),
{
    magnitude.gt(Scalar { bits: FAINT_FORCE_BITS })
}

/// The largest and the lowest stress among the cells, both starting at zero.
pub fn stress_extremes(grid: &Vec<Cell>) -> (e: (Scalar, Scalar))
    ensures
        e == extremes(views(grid@)),
{
    let mut most: Scalar = Scalar::zero();
    let mut least: Scalar = Scalar::zero();
    let mut k: usize = 0;
    while k < grid.len()
        invariant
            k <= grid.len(),
            (most, least) == extremes(views(grid@).take(k as int)),
        decreases grid.len() - k,
    {
        proof {
            let upto = views(grid@).take(k as int + 1);
            assert(upto.drop_last() == views(grid@).take(k as int));
            assert(upto.last() == grid@[k as int]@);
        }
        match grid[k].stress {
            None => {},
            Some(s) => {
                if s.gt(most) {
                    most = s;
                } else if s.lt(least) {
                    least = s;
                }
            },
        }
        k = k + 1;
    }
    assert(views(grid@).take(grid@.len() as int) == views(grid@));
    (most, least)
}

/// The largest of the values and zero.
pub fn largest(values: &Vec<Scalar>) -> (m: Scalar)
    ensures
        m == largest_of(values@),
{
    let mut most: Scalar = Scalar::zero();
    let mut k: usize = 0;
    while k < values.len()
        invariant
            k <= values.len(),
            most == largest_of(values@.take(k as int)),
        decreases values.len() - k,
    {
        proof {
            let upto = values@.take(k as int + 1);
            assert(upto.drop_last() == values@.take(k as int));
        }
        if !most.gt(values[k]) {
            most = values[k];
        }
        k = k + 1;
    }
    assert(values@.take(values@.len() as int) == values@);
    most
}

impl Stressavg {
    /// The stress of the snapshot that is largest in magnitude: the tension
    /// with its sign turned, where that is above the compression.
    pub fn peak(&self) -> (p: Scalar)
        ensures
            p == peak_of(*self),
    {
        let tension = self.max_tension.neg();
        if tension.gt(self.max_compression) {
            tension
        } else {
            self.max_compression
        }
    }
}

/// The stress by which the colours of a trajectory are scaled: the largest
/// peak of its snapshots, or one where that is not above `1e-10`. There is
/// none for no snapshot, nor for several of which one has a NaN for its peak.
pub fn max_stress(avgs: &Vec<Stressavg>) -> (m: Option<Scalar>)
    ensures
        m is None <==> avgs@.len() == 0 || (avgs@.len() >= 2 && any_nan_peak(
            avgs@,
            avgs@.len() as int,
        )),
        m matches Some(v) ==> v == scale_of(top_peak(avgs@, avgs@.len() as int)),
{
    if avgs.len() == 0 {
        return None;
    }
    let mut top: Scalar = avgs[0].peak();
    if avgs.len() >= 2 && top.is_nan() {
        return None;
    }
    let mut k: usize = 1;
    while k < avgs.len()
        invariant
            1 <= k <= avgs.len(),
            top == top_peak(avgs@, k as int),
            avgs@.len() >= 2 ==> !any_nan_peak(avgs@, k as int),
        decreases avgs.len() - k,
    {
        let next: Scalar = avgs[k].peak();
        if next.is_nan() {
            return None;
        }
        if next.ge(top) {
            top = next;
        }
        k = k + 1;
    }
    if top.le(Scalar { bits: FAINT_STRESS_BITS }) {
        Some(Scalar { bits: ONE_BITS })
    } else {
        Some(top)
    }
}

/// The extremes of a snapshot are no NaNs, and zero lies between them.
pub proof fn lemma_extremes_span_zero(cells: Seq<CellView>)
    ensures
        extremes(cells).1.spec_le(Scalar { bits: 0 }),
        (Scalar { bits: 0 }).spec_le(extremes(cells).0),
    decreases cells.len(),
{
    if cells.len() > 0 {
        lemma_extremes_span_zero(cells.drop_last());
    }
}

/// Every stress of a snapshot that is no NaN lies between the extremes.
pub proof fn lemma_extremes_bracket(cells: Seq<CellView>, i: int)
    requires
        0 <= i < cells.len(),
        cells[i].stress is Some,
        !cells[i].stress->0.spec_is_nan(),
    ensures
        extremes(cells).1.spec_le(cells[i].stress->0),
        cells[i].stress->0.spec_le(extremes(cells).0),
    decreases cells.len(),
{
    let before = cells.drop_last();
    lemma_extremes_span_zero(before);
    lemma_extremes_span_zero(cells);
    if i < cells.len() - 1 {
        lemma_extremes_bracket(before, i);
        assert(before[i] == cells[i]);
    }
}

/// Each extreme is zero or the stress of a cell.
pub proof fn lemma_extremes_attained(cells: Seq<CellView>)
    ensures
        extremes(cells).0 == (Scalar { bits: 0 }) || exists|i: int|
            0 <= i < cells.len() && (#[trigger] cells[i]).stress == Some(extremes(cells).0),
        extremes(cells).1 == (Scalar { bits: 0 }) || exists|i: int|
            0 <= i < cells.len() && (#[trigger] cells[i]).stress == Some(extremes(cells).1),
    decreases cells.len(),
{
    if cells.len() > 0 {
        let before = cells.drop_last();
        let last = cells.len() - 1;
        lemma_extremes_attained(before);
        let e = extremes(cells);
        let b = extremes(before);
        if e.0 != (Scalar { bits: 0 }) {
            if e.0 == b.0 {
                let i = choose|i: int|
                    0 <= i < before.len() && (#[trigger] before[i]).stress == Some(b.0);
                assert(cells[i] == before[i]);
            } else {
                assert(cells[last].stress == Some(e.0));
            }
        }
        if e.1 != (Scalar { bits: 0 }) {
            if e.1 == b.1 {
                let i = choose|i: int|
                    0 <= i < before.len() && (#[trigger] before[i]).stress == Some(b.1);
                assert(cells[i] == before[i]);
            } else {
                assert(cells[last].stress == Some(e.1));
            }
        }
    }
}

/// A snapshot with no stress below zero has a lowest stress of zero.
pub proof fn lemma_compression_alone(cells: Seq<CellView>)
    requires
        forall|i: int|
            0 <= i < cells.len() && (#[trigger] cells[i]).stress is Some ==> !cells[i].stress->0.spec_lt(
                Scalar { bits: 0 },
            ),
    ensures
        extremes(cells).1 == (Scalar { bits: 0 }),
    decreases cells.len(),
{
    if cells.len() > 0 {
        let before = cells.drop_last();
        assert forall|i: int|
            0 <= i < before.len() && (#[trigger] before[i]).stress is Some implies !before[i].stress->0.spec_lt(
            Scalar { bits: 0 },
        ) by {
            assert(before[i] == cells[i]);
        }
        lemma_compression_alone(before);
        lemma_extremes_span_zero(before);
        assert(cells.last() == cells[cells.len() - 1]);
    }
}

/// Where no value is a NaN, the largest is not below zero nor below any of
/// the values.
pub proof fn lemma_largest_bounds(values: Seq<Scalar>, i: int)
    requires
        0 <= i < values.len(),
        forall|k: int| 0 <= k < values.len() ==> !(#[trigger] values[k]).spec_is_nan(),
    ensures
        values[i].spec_le(largest_of(values)),
        (Scalar { bits: 0 }).spec_le(largest_of(values)),
    decreases values.len(),
{
    lemma_largest_above_zero(values);
    let before = values.drop_last();
    lemma_largest_above_zero(before);
    if i < values.len() - 1 {
        assert(before[i] == values[i]);
        lemma_largest_bounds(before, i);
    }
}

/// The largest of values of which none is a NaN is zero or above.
pub proof fn lemma_largest_above_zero(values: Seq<Scalar>)
    requires
        forall|k: int| 0 <= k < values.len() ==> !(#[trigger] values[k]).spec_is_nan(),
    ensures
        (Scalar { bits: 0 }).spec_le(largest_of(values)),
    decreases values.len(),
{
    if values.len() > 0 {
        let before = values.drop_last();
        assert forall|k: int| 0 <= k < before.len() implies !(#[trigger] before[k]).spec_is_nan() by {
            assert(before[k] == values[k]);
        }
        lemma_largest_above_zero(before);
        assert(values.last() == values[values.len() - 1]);
    }
}

} // verus!
