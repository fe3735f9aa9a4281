//! The rules of the derivative evaluator: which law joins two cells, which
//! contributions are dropped, and what drives a cell besides its springs.
//!
//! The net force on cell `i` is the sum, over every cell `j`, of a pairwise
//! force along the unit vector from `i` to `j`. The pairwise force is the
//! spring force of the pair's [`Link`], set to zero inside the dead zone,
//! plus a repulsion where the cells are closer than the cutoff. A pair whose
//! unit vector or force is not finite adds nothing. What [`drive`] returns
//! says what becomes of that sum.

use vstd::prelude::*;
use crate::cell::{Cell, CellView, Pos, holds};
use crate::forces::{ForceFunc, Push, force_func, pin_after, push_of};
use crate::scalar::Scalar;
use crate::settings::Settings;

verus! {

/// The pattern of `1e-7`, the width of the dead zone.
pub const DEAD_ZONE_BITS: u64 = 0x3E7A_D7F2_9ABC_AF48;

/// The spring between a cell and another.
#[derive(Debug, PartialEq, Eq, Clone, Copy, Structural)]
pub enum Link {
    /// A spring of rest length `spring_relax_close`.
    Close,
    /// A spring of rest length `spring_relax_far`.
    Far,
    /// No spring.
    Free,
}

/// What becomes of the sum of the pairwise forces on a cell.
#[derive(Debug, PartialEq, Eq, Clone, Copy, Structural)]
pub enum Drive {
    /// The cell is pinned: its net force is zero, whatever the sum.
    Pinned,
    /// The sum is the net force.
    Springs,
    /// The sum and this outside force make the net force.
    Forced(Push),
}

/// The spring from a cell to cell `j`: the close list is looked at first.
pub open spec fn link_of(c: CellView, j: usize) -> Link {
    if c.neighbor_close.contains(j) {
        Link::Close
    } else if c.neighbor_far.contains(j) {
        Link::Far
    } else {
        Link::Free
    }
}

/// A spring force with the dead zone applied: a force of magnitude below
/// `1e-7` becomes positive zero.
pub open spec fn snapped(force: Scalar) -> Scalar {
    if (Scalar { bits: force.magnitude() }).spec_lt(Scalar { bits: DEAD_ZONE_BITS }) {
        Scalar { bits: 0 }
    } else {
        force
    }
}

/// A pair adds to the net force only if the unit vector between its cells
/// and its force are all finite.
pub open spec fn sound(unit: Pos, force: Scalar) -> bool {
    unit.x.spec_is_finite() && unit.y.spec_is_finite() && force.spec_is_finite()
}

/// What drives a cell at time `t`. A pinned cell is pinned. A free cell
/// under an outside force has that force asked for, which may pin it.
pub open spec fn drive_of(c: CellView, t: Scalar) -> Drive {
    if c.fixed {
        Drive::Pinned
    } else if c.force == ForceFunc::NoForce {
        Drive::Springs
    } else if pin_after(c.force, t, false) {
        Drive::Pinned
    } else {
        Drive::Forced(push_of(c.force, t, c.pos.y))
    }
}

/// The pin of a cell after its drive was asked for at time `t`.
pub open spec fn pinned_after(c: CellView, t: Scalar) -> bool {
    c.fixed || (c.force != ForceFunc::NoForce && pin_after(c.force, t, false))
}

/// The spring from `cell` to the `j`-th cell of its network.
pub fn spring_link(cell: &Cell, j: usize) -> (l: Link)
    ensures
        l == link_of(cell@, j),
{
    if holds(&cell.neighbor_close, j) {
        Link::Close
    } else if holds(&cell.neighbor_far, j) {
        Link::Far
    } else {
        Link::Free
    }
}

/// Applies the dead zone to a spring force.
pub fn snap(force: Scalar) -> (r: Scalar)
    ensures
        r == snapped(force),
{
    if force.abs().lt(Scalar { bits: DEAD_ZONE_BITS }) {
        Scalar::zero()
    } else {
        force
    }
}

/// Two cells at distance `dist` repel each other: they are closer than the
/// cutoff.
pub fn repels(dist: Scalar, settings: &Settings) -> (r: bool)
    ensures
        r == dist.spec_lt(settings.repl_dist),
{
    dist.lt(settings.repl_dist)
}

/// Whether a pair adds to the net force.
pub fn pair_counts(unit: &Pos, force: Scalar) -> (r: bool)
    ensures
        r == sound(*unit, force),
{
    unit.x.is_finite() && unit.y.is_finite() && force.is_finite()
}

/// What drives `cell`, the `i`-th of its network, at time `t`. Asking may
/// pin the cell; nothing else of it changes.
pub fn drive(t: Scalar, cell: &mut Cell, i: usize, settings: &Settings) -> (d: Drive)
    ensures
        d == drive_of(old(cell)@, t),
        final(cell)@ == (CellView { fixed: pinned_after(old(cell)@, t), ..old(cell)@ }),
{
    if cell.fixed {
        return Drive::Pinned;
    }
    let variant = cell.force;
    match variant {
        ForceFunc::NoForce => Drive::Springs,
        _ => {
            let push = force_func(&variant, t, cell, i, settings);
            if cell.fixed {
                Drive::Pinned
            } else {
                Drive::Forced(push)
            }
        },
    }
}

/// The velocities of a network as one list, `x` before `y`, cell by cell.
pub fn interlace(velocities: &Vec<Pos>) -> (flat: Vec<Scalar>)
    ensures
        flat@.len() == 2 * velocities@.len(),
        forall|i: int|
            0 <= i < velocities@.len() ==> flat@[2 * i] == (#[trigger] velocities@[i]).x && flat@[2
                * i + 1] == velocities@[i].y,
{
    let mut flat: Vec<Scalar> = Vec::new();
    let mut k: usize = 0;
    while k < velocities.len()
        invariant
            k <= velocities.len(),
            flat@.len() == 2 * k,
            forall|i: int|
                0 <= i < k ==> flat@[2 * i] == (#[trigger] velocities@[i]).x && flat@[2 * i + 1]
                    == velocities@[i].y,
        decreases velocities.len() - k,
    {
        flat.push(velocities[k].x);
        flat.push(velocities[k].y);
        k = k + 1;
    }
    flat
}

/// The velocity of cell `i` in an interlaced list, if the list holds it.
pub fn velocity_of(flat: &Vec<Scalar>, i: usize) -> (v: Option<Pos>)
    ensures
        v == if 2 * i + 1 < flat@.len() {
            Some(Pos { x: flat@[2 * i], y: flat@[2 * i + 1] })
        } else {
            None
        },
{
    let n: usize = flat.len();
    if n < 2 || i > (n - 2) / 2 {
        return None;
    }
    Some(Pos { x: flat[2 * i], y: flat[2 * i + 1] })
}

/// A spring force that has passed the dead zone is positive zero, or of a
/// magnitude of `1e-7` at least, or a NaN.
pub proof fn lemma_snapped_clear(force: Scalar)
    ensures
        snapped(force).bits == 0 || snapped(force).spec_is_nan() || (Scalar {
            bits: DEAD_ZONE_BITS,
        }).spec_le(Scalar { bits: snapped(force).magnitude() }),
        snapped(force) == force || snapped(force).bits == 0,
{
}

/// A pinned cell stays pinned and is driven by nothing, at any time.
pub proof fn lemma_pinned_stays(c: CellView, t: Scalar)
    requires
        c.fixed,
    ensures
        drive_of(c, t) == Drive::Pinned,
        pinned_after(c, t),
{
}

/// A drive that is not `Pinned` leaves the cell free, and one that is
/// `Pinned` leaves it pinned.
pub proof fn lemma_drive_matches_pin(c: CellView, t: Scalar)
    ensures
        drive_of(c, t) == Drive::Pinned <==> pinned_after(c, t),
{
}

/// A pair with a NaN or an infinity in its unit vector or force adds nothing.
pub proof fn lemma_unsound_pair(unit: Pos, force: Scalar)
    requires
        unit.x.spec_is_nan() || unit.y.spec_is_nan() || force.spec_is_nan()
            || unit.x.spec_is_infinite() || unit.y.spec_is_infinite()
            || force.spec_is_infinite(),
    ensures
        !sound(unit, force),
{
}

} // verus!
