//! What the integrators record and decide.
//!
//! Every integrator advances a network step by step and records each state
//! it reaches under the number of the step. [`Trajectory`] keeps that
//! record: it starts with the network as given, at step 0 and time zero, and
//! grows by one entry for each step that is taken. A step that is tried and
//! given up leaves no entry. A cell that is pinned before and after a step is
//! not moved by it.
//!
//! [`StepControl`] holds the rule by which the adaptive method accepts a step
//! and bounds the next one.

use vstd::prelude::*;
use crate::cell::{Cell, CellView, Pos, copy_cells, links_fit, views, well_linked};
use crate::scalar::Scalar;
use crate::schemes::HISTORY;
use crate::settings::Settings;

verus! {

/// The pattern of `0.01`, the step that the adaptive methods try first,
/// where their bounds allow it.
pub const FIRST_STEP_BITS: u64 = 0x3F84_7AE1_47AE_147B;

/// What an entry of a trajectory holds.
pub struct Entry {
    pub iteration: int,
    pub time: Scalar,
    pub cells: Seq<CellView>,
}

/// What one entry holds.
pub open spec fn entry_of(e: (i32, Scalar, Vec<Cell>)) -> Entry {
    Entry { iteration: e.0 as int, time: e.1, cells: views(e.2@) }
}

/// What the entries of a trajectory hold, in order.
pub open spec fn entries_of(path: Seq<(i32, Scalar, Vec<Cell>)>) -> Seq<Entry> {
    Seq::new(path.len(), |k: int| entry_of(path[k]))
}

/// A cell after a step that computed `pos` and `pin` for it: a cell that is
/// pinned before and after stays as it is, any other takes both.
pub open spec fn stepped(c: CellView, pos: Pos, pin: bool) -> CellView {
    if c.fixed && pin {
        c
    } else {
        CellView { pos, fixed: pin, ..c }
    }
}

/// A network after a step that computed these positions and pins.
pub open spec fn stepped_all(cells: Seq<CellView>, positions: Seq<Pos>, pins: Seq<bool>) -> Seq<
    CellView,
> {
    Seq::new(cells.len(), |i: int| stepped(cells[i], positions[i], pins[i]))
}

/// Cell `after` is cell `before` one step later: only its position and its
/// pin may differ, and if it is pinned at both ends it has not moved.
pub open spec fn succeeds(before: CellView, after: CellView) -> bool {
    &&& after == CellView { pos: after.pos, fixed: after.fixed, ..before }
    &&& before.fixed && after.fixed ==> after.pos == before.pos
}

/// The entries are those of a run: the first is step 0 at time zero, the
/// step numbers rise, and each snapshot is its predecessor one step later.
pub open spec fn orderly(entries: Seq<Entry>) -> bool {
    &&& entries.len() >= 1
    &&& entries[0].iteration == 0
    &&& entries[0].time == Scalar { bits: 0 }
    &&& forall|k: int|
        0 <= k < entries.len() - 1 ==> (#[trigger] entries[k]).iteration < entries[k
            + 1].iteration
    &&& forall|k: int|
        0 <= k < entries.len() - 1 ==> (#[trigger] entries[k]).cells.len() == entries[k
            + 1].cells.len()
    &&& forall|k: int, i: int|
        0 <= k < entries.len() - 1 && 0 <= i < entries[k].cells.len() ==> succeeds(
            #[trigger] entries[k].cells[i],
            #[trigger] entries[k + 1].cells[i],
        )
}

/// A proposed step held to the bounds: the upper bound where it is above
/// it, the lower where it is below, else the step as proposed.
pub open spec fn bounded(proposal: Scalar, dt_min: Scalar, dt_max: Scalar) -> Scalar {
    if proposal.spec_gt(dt_max) {
        dt_max
    } else if proposal.spec_lt(dt_min) {
        dt_min
    } else {
        proposal
    }
}

/// What the multistep method does next.
#[derive(Debug, Clone, Copy, PartialEq, Eq, Structural)]
pub enum Phase {
    /// The run is over: its time has reached the duration.
    Done,
    /// A step of the classical method, to make the history.
    Bootstrap,
    /// A step of its own, from the newest entries.
    Multistep,
}

/// What the multistep method does next in a run with these entries and
/// this duration.
pub open spec fn phase_of(entries: Seq<Entry>, del_t: Scalar) -> Phase {
    if !entries.last().time.spec_lt(del_t) {
        Phase::Done
    } else if entries.len() < HISTORY {
        Phase::Bootstrap
    } else {
        Phase::Multistep
    }
}

/// The record of a run.
pub struct Trajectory {
    path: Vec<(i32, Scalar, Vec<Cell>)>,
    iter: i32,
}

impl View for Trajectory {
    type V = Seq<Entry>;

    closed spec fn view(&self) -> Seq<Entry> {
        entries_of(self.path@)
    }
}

impl Trajectory {
    /// The number of the step that the run has reached.
    pub closed spec fn reached(&self) -> int {
        self.iter as int
    }

    /// The record is that of a run, and no entry is numbered above the step
    /// that the run has reached.
    pub open spec fn wf(&self) -> bool {
        &&& orderly(self@)
        &&& self@.last().iteration <= self.reached()
    }

    /// The record of a run that starts from `grid`.
    pub fn start(grid: &Vec<Cell>) -> (t: Trajectory)
        ensures
            t.wf(),
            t.reached() == 0,
            t@ == seq![Entry { iteration: 0, time: Scalar { bits: 0 }, cells: views(grid@) }],
    {
        let mut path: Vec<(i32, Scalar, Vec<Cell>)> = Vec::new();
        path.push((0, Scalar::zero(), copy_cells(grid)));
        let t = Trajectory { path, iter: 0 };
        assert(t@ =~= seq![
            Entry { iteration: 0, time: Scalar { bits: 0 }, cells: views(grid@) },
        ]);
        t
    }

    /// The number of the step that the run has reached.
    pub fn iteration(&self) -> (n: i32)
        ensures
            n == self.reached(),
    {
        self.iter
    }

    /// The time that the run has reached.
    pub fn time(&self) -> (t: Scalar)
        requires
            self.wf(),
        ensures
            t == self@.last().time,
    {
        self.path[self.path.len() - 1].1
    }

    /// The network as the run has left it.
    pub fn cells(&self) -> (cells: &Vec<Cell>)
        requires
            self.wf(),
        ensures
            views(cells@) == self@.last().cells,
    {
        &self.path[self.path.len() - 1].2
    }

    /// The entries so far, oldest first.
    pub fn entries(&self) -> (path: &Vec<(i32, Scalar, Vec<Cell>)>)
        ensures
            entries_of(path@) == self@,
    {
        &self.path
    }

    /// The run goes on: its time is below the duration in `settings`.
    pub fn is_running(&self, settings: &Settings) -> (r: bool)
        requires
            self.wf(),
        ensures
            r == self@.last().time.spec_lt(settings.del_t),
    {
        self.time().lt(settings.del_t)
    }

    /// Takes a step to `time`: the network with the positions and pins that
    /// the step computed is recorded under the next number.
    pub fn advance(&mut self, positions: &Vec<Pos>, pins: &Vec<bool>, time: Scalar)
        requires
            old(self).wf(),
            old(self).reached() < i32::MAX,
            positions@.len() == old(self)@.last().cells.len(),
            pins@.len() == old(self)@.last().cells.len(),
        ensures
            final(self).wf(),
            final(self).reached() == old(self).reached() + 1,
            final(self)@ == old(self)@.push(
                Entry {
                    iteration: old(self).reached() + 1,
                    time,
                    cells: stepped_all(old(self)@.last().cells, positions@, pins@),
                },
            ),
    {
        let ghost before = self@;
        let last: usize = self.path.len() - 1;
        let n: usize = self.path[last].2.len();
        let mut next: Vec<Cell> = Vec::new();
        let mut i: usize = 0;
        while i < n
            invariant
                i <= n,
                last == self.path@.len() - 1,
                n == self.path@[last as int].2@.len(),
                positions@.len() == n,
                pins@.len() == n,
                next@.len() == i,
                self@ == before,
                forall|l: int|
                    0 <= l < i ==> (#[trigger] next@[l])@ == stepped(
                        self.path@[last as int].2@[l]@,
                        positions@[l],
                        pins@[l],
                    ),
            decreases n - i,
        {
            let mut c = self.path[last].2[i].duplicate();
            if !(c.fixed && pins[i]) {
                c.pos = positions[i];
                c.fixed = pins[i];
            }
            next.push(c);
            i = i + 1;
        }
        assert(views(next@) =~= stepped_all(before.last().cells, positions@, pins@));
        self.iter = self.iter + 1;
        self.path.push((self.iter, time, next));
        assert(self@ =~= before.push(
            Entry {
                iteration: old(self).reached() + 1,
                time,
                cells: stepped_all(before.last().cells, positions@, pins@),
            },
        ));
    }

    /// Leaves the next step number unused.
    pub fn skip(&mut self)
        requires
            old(self).wf(),
            old(self).reached() < i32::MAX,
        ensures
            final(self).wf(),
            final(self).reached() == old(self).reached() + 1,
            final(self)@ == old(self)@,
    {
        self.iter = self.iter + 1;
    }

    /// Says what the multistep method does next. Before the first step of
    /// its own, which follows the entry that completes the history, one step
    /// number is left unused: after the steps 1, 2 and 3 of the classical
    /// method, its own are numbered from 5.
    pub fn plan_multistep(&mut self, settings: &Settings) -> (p: Phase)
        requires
            old(self).wf(),
        ensures
            final(self).wf(),
            final(self)@ == old(self)@,
            p == phase_of(old(self)@, settings.del_t),
            final(self).reached() == if p == Phase::Multistep && old(self)@.len() == HISTORY
                && old(self).reached() == old(self)@.last().iteration && old(self).reached()
                < i32::MAX {
                old(self).reached() + 1
            } else {
                old(self).reached()
            },
    {
        if !self.is_running(settings) {
            return Phase::Done;
        }
        let n: usize = self.path.len();
        if n < HISTORY {
            return Phase::Bootstrap;
        }
        if n == HISTORY && self.iter == self.path[n - 1].0 && self.iter < i32::MAX {
            self.iter = self.iter + 1;
        }
        Phase::Multistep
    }

    /// Ends the run and hands over its entries, oldest first.
    pub fn finish(self) -> (path: Vec<(i32, Scalar, Vec<Cell>)>)
        requires
            self.wf(),
        ensures
            entries_of(path@) == self@,
            orderly(entries_of(path@)),
    {
        self.path
    }
}

/// The rule of the adaptive method: the tolerance, the bounds of the step,
/// and the step that is tried next.
#[derive(Debug, Clone, Copy, PartialEq, Eq, Structural)]
pub struct StepControl {
    pub epsilon: Scalar,
    pub dt_min: Scalar,
    pub dt_max: Scalar,
    pub dt: Scalar,
}

impl StepControl {
    /// A step with this estimate of its error is taken: the estimate is
    /// within the tolerance, or the step is already the smallest allowed.
    pub open spec fn takes(self, error: Scalar) -> bool {
        error.spec_le(self.epsilon) || self.dt.spec_le(self.dt_min)
    }

    /// The step lies within the bounds.
    pub open spec fn within(self) -> bool {
        self.dt_min.spec_le(self.dt) && self.dt.spec_le(self.dt_max)
    }

    /// The rule with the given tolerance and bounds. The first step that is
    /// tried is `0.01`, held to the bounds.
    pub fn new(epsilon: Scalar, dt_min: Scalar, dt_max: Scalar) -> (c: StepControl)
        ensures
            c == (StepControl {
                epsilon,
                dt_min,
                dt_max,
                dt: bounded(Scalar { bits: FIRST_STEP_BITS }, dt_min, dt_max),
            }),
    {
        let mut c = StepControl { epsilon, dt_min, dt_max, dt: dt_min };
        c.retune(Scalar { bits: FIRST_STEP_BITS });
        c
    }

    /// Whether the step that was tried, with this estimate of its error, is
    /// taken.
    pub fn accepts(&self, error: Scalar) -> (r: bool)
        ensures
            r == self.takes(error),
    {
        error.le(self.epsilon) || self.dt.le(self.dt_min)
    }

    /// Sets the step that is tried next to `proposal`, held to the bounds.
    pub fn retune(&mut self, proposal: Scalar)
        ensures
            *final(self) == (StepControl {
                dt: bounded(proposal, old(self).dt_min, old(self).dt_max),
                ..*old(self)
            }),
    {
        if proposal.gt(self.dt_max) {
            self.dt = self.dt_max;
        } else if proposal.lt(self.dt_min) {
            self.dt = self.dt_min;
        } else {
            self.dt = proposal;
        }
    }
}

impl StepControl {
    /// Ends a try of the adaptive method. The step that was tried led to
    /// `time` with these positions and pins, at an estimated `error`; the
    /// next step is proposed as `proposal`. The step is taken, and recorded,
    /// if the rule accepts it; the next step is set, held to the bounds,
    /// whether it is or not.
    pub fn conclude(
        &mut self,
        run: &mut Trajectory,
        positions: &Vec<Pos>,
        pins: &Vec<bool>,
        time: Scalar,
        error: Scalar,
        proposal: Scalar,
    ) -> (taken: bool)
        requires
            old(run).wf(),
            old(run).reached() < i32::MAX,
            positions@.len() == old(run)@.last().cells.len(),
            pins@.len() == old(run)@.last().cells.len(),
        ensures
            taken == old(self).takes(error),
            *final(self) == (StepControl {
                dt: bounded(proposal, old(self).dt_min, old(self).dt_max),
                ..*old(self)
            }),
            final(run).wf(),
            taken ==> final(run).reached() == old(run).reached() + 1 && final(run)@ == old(run)@.push(
                Entry {
                    iteration: old(run).reached() + 1,
                    time,
                    cells: stepped_all(old(run)@.last().cells, positions@, pins@),
                },
            ),
            !taken ==> final(run).reached() == old(run).reached() && final(run)@ == old(run)@,
    {
        let taken = self.accepts(error);
        if taken {
            run.advance(positions, pins, time);
        }
        self.retune(proposal);
        taken
    }
}

/// Step doubling gives a step up and halves it: a full step and two half
/// steps differ by more than the tolerance.
pub fn must_halve(error: Scalar, tol: Scalar) -> (r: bool)
    ensures
        r == error.spec_gt(tol),
{
    error.gt(tol)
}

/// Step doubling takes a step of twice the size: it differs from two half
/// steps by no more than the tolerance.
pub fn can_double(error: Scalar, tol: Scalar) -> (r: bool)
    ensures
        r == error.spec_le(tol),
{
    error.le(tol)
}

/// The step numbers of a run rise from entry to entry.
pub proof fn lemma_numbers_rise(entries: Seq<Entry>, k: int, l: int)
    requires
        orderly(entries),
        0 <= k < l < entries.len(),
    ensures
        entries[k].iteration < entries[l].iteration,
    decreases l - k,
{
    if k + 1 < l {
        lemma_numbers_rise(entries, k, l - 1);
    }
    assert(entries[l - 1].iteration < entries[l - 1 + 1].iteration);
}

/// No two entries of a run share a step number, so none is recorded twice.
pub proof fn lemma_no_entry_twice(entries: Seq<Entry>, k: int, l: int)
    requires
        orderly(entries),
        0 <= k < entries.len(),
        0 <= l < entries.len(),
        k != l,
    ensures
        entries[k].iteration != entries[l].iteration,
{
    if k < l {
        lemma_numbers_rise(entries, k, l);
    } else {
        lemma_numbers_rise(entries, l, k);
    }
}

/// Every snapshot of a run holds as many cells as the first.
pub proof fn lemma_size_kept(entries: Seq<Entry>, k: int)
    requires
        orderly(entries),
        0 <= k < entries.len(),
    ensures
        entries[k].cells.len() == entries[0].cells.len(),
    decreases k,
{
    if k > 0 {
        lemma_size_kept(entries, k - 1);
        assert(entries[k - 1].cells.len() == entries[k - 1 + 1].cells.len());
    }
}

/// Every snapshot of a run holds as many cells as the first, and each cell
/// differs from what it was at the start in its position and pin at most.
pub proof fn lemma_frame_kept(entries: Seq<Entry>, k: int, i: int)
    requires
        orderly(entries),
        0 <= k < entries.len(),
        0 <= i < entries[0].cells.len(),
    ensures
        entries[k].cells.len() == entries[0].cells.len(),
        entries[k].cells[i] == (CellView {
            pos: entries[k].cells[i].pos,
            fixed: entries[k].cells[i].fixed,
            ..entries[0].cells[i]
        }),
    decreases k,
{
    if k > 0 {
        lemma_frame_kept(entries, k - 1, i);
        assert(entries[k - 1].cells.len() == entries[k - 1 + 1].cells.len());
        assert(succeeds(entries[k - 1].cells[i], entries[k - 1 + 1].cells[i]));
    }
}

/// The springs of a run are those of its start: if the first snapshot is
/// well linked, every snapshot is.
pub proof fn lemma_links_kept(entries: Seq<Entry>, k: int)
    requires
        orderly(entries),
        0 <= k < entries.len(),
        well_linked(entries[0].cells),
    ensures
        well_linked(entries[k].cells),
{
    assert forall|i: int| 0 <= i < entries[k].cells.len() implies links_fit(
        #[trigger] entries[k].cells[i],
        i,
        entries[k].cells.len() as int,
    ) by {
        lemma_size_kept(entries, k);
        lemma_frame_kept(entries, k, i);
        assert(links_fit(entries[0].cells[i], i, entries[0].cells.len() as int));
    }
}

/// A cell that is pinned in every entry up to the `k`-th is, in the
/// `k`-th, where it was at the start.
pub proof fn lemma_pinned_cell_rests(entries: Seq<Entry>, k: int, i: int)
    requires
        orderly(entries),
        0 <= k < entries.len(),
        0 <= i < entries[0].cells.len(),
        forall|l: int| 0 <= l <= k ==> (#[trigger] entries[l]).cells[i].fixed,
    ensures
        entries[k].cells[i].pos == entries[0].cells[i].pos,
    decreases k,
{
    if k > 0 {
        lemma_pinned_cell_rests(entries, k - 1, i);
        lemma_frame_kept(entries, k - 1, i);
        assert(entries[k - 1].cells[i].fixed);
        assert(entries[k].cells[i].fixed);
        assert(succeeds(entries[k - 1].cells[i], entries[k - 1 + 1].cells[i]));
    }
}

/// A step held to bounds that are in order lies within them, unless the
/// proposal is a NaN.
pub proof fn lemma_bounded_within(proposal: Scalar, dt_min: Scalar, dt_max: Scalar)
    requires
        dt_min.spec_le(dt_max),
        !proposal.spec_is_nan(),
    ensures
        dt_min.spec_le(bounded(proposal, dt_min, dt_max)),
        bounded(proposal, dt_min, dt_max).spec_le(dt_max),
{
}

/// Under bounds that are in order, the first step of the adaptive method
/// lies within them, and so does every step that follows a proposal that is
/// no NaN.
pub proof fn lemma_steps_within(c: StepControl, proposal: Scalar)
    requires
        c.dt_min.spec_le(c.dt_max),
        !proposal.spec_is_nan(),
    ensures
        (StepControl {
            dt: bounded(Scalar { bits: FIRST_STEP_BITS }, c.dt_min, c.dt_max),
            ..c
        }).within(),
        (StepControl { dt: bounded(proposal, c.dt_min, c.dt_max), ..c }).within(),
{
    lemma_bounded_within(Scalar { bits: FIRST_STEP_BITS }, c.dt_min, c.dt_max);
    lemma_bounded_within(proposal, c.dt_min, c.dt_max);
}

/// A step that is the smallest allowed is taken, whatever its error: the
/// adaptive method cannot stall.
pub proof fn lemma_least_step_taken(c: StepControl, error: Scalar)
    requires
        c.dt.spec_le(c.dt_min),
    ensures
        c.takes(error),
{
}

} // verus!
