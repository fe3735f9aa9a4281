//! The outside forces on a cell: which of them act, and what they do to the
//! cell's pin.

use vstd::prelude::*;
use crate::cell::Cell;
use crate::scalar::Scalar;
use crate::settings::Settings;

verus! {

/// The outside force that a cell is under.
#[derive(Debug, PartialEq, Eq, Copy, Clone, Structural)]
pub enum ForceFunc {
    /// No outside force.
    NoForce,
    /// Pinned, but let go and pushed steadily one time unit in ten.
    Constrained,
    /// Driven by a sine wave.
    Sine,
}

/// The side on which a cell has left the channel `0 <= y <= 1`.
#[derive(Debug, PartialEq, Eq, Copy, Clone, Structural)]
pub enum Wall {
    /// `y > 1`: the wall pushes back with `restraint_k * (1 - y)`.
    Upper,
    /// `y < 0`: the wall pushes back with `restraint_k * -y`.
    Lower,
    /// Inside the channel, or `y` is a NaN: no push.
    Clear,
}

/// What is added to the horizontal component of an outside force.
#[derive(Debug, PartialEq, Eq, Copy, Clone, Structural)]
pub enum Thrust {
    /// Nothing.
    Idle,
    /// The constant `extforce_x`.
    Steady,
    /// `sineamp * sin(sineomega * t)`.
    Wave,
}

/// An outside force, as the terms that make it up: the wall's push on the
/// vertical component and the thrust on the horizontal one.
#[derive(Debug, PartialEq, Eq, Copy, Clone, Structural)]
pub struct Push {
    pub wall: Wall,
    pub thrust: Thrust,
}

/// The wall that `y` lies beyond.
pub open spec fn wall_of(y: Scalar) -> Wall {
    if y.spec_gt(Scalar { bits: 0x3FF0_0000_0000_0000 }) {
        Wall::Upper
    } else if y.spec_lt(Scalar { bits: 0 }) {
        Wall::Lower
    } else {
        Wall::Clear
    }
}

/// A constrained cell is let go while the whole part of the time is a
/// multiple of ten.
pub open spec fn released(t: Scalar) -> bool {
    t.floor() % 10 == 0
}

/// The force of a variant on a cell at height `y` at time `t`.
pub open spec fn push_of(e: ForceFunc, t: Scalar, y: Scalar) -> Push {
    match e {
        ForceFunc::NoForce => Push { wall: Wall::Clear, thrust: Thrust::Idle },
        ForceFunc::Constrained => Push {
            wall: wall_of(y),
            thrust: if released(t) {
                Thrust::Steady
            } else {
                Thrust::Idle
            },
        },
        ForceFunc::Sine => Push { wall: wall_of(y), thrust: Thrust::Wave },
    }
}

/// The pin of a cell after a variant's force was asked for at time `t`.
pub open spec fn pin_after(e: ForceFunc, t: Scalar, fixed: bool) -> bool {
    match e {
        ForceFunc::Constrained => !released(t),
        _ => fixed,
    }
}

/// Whether a constrained cell is let go at time `t`.
pub fn is_released(t: Scalar) -> (r: bool)
    ensures
        r == released(t),
{
    let whole: i32 = t.floor_i32();
    let size: i64 = if whole < 0 {
        -(whole as i64)
    } else {
        whole as i64
    };
    size % 10 == 0
}

/// The soft wall of the channel: which side of it, if any, pushes the cell
/// back. The cell is left as it is.
pub fn linear_restraint(_t: Scalar, c: &Cell, _i: usize, _s: &Settings) -> (w: Wall)
    ensures
        w == wall_of(c.pos.y),
{
    if c.pos.y.gt(Scalar::one()) {
        Wall::Upper
    } else if c.pos.y.lt(Scalar::zero()) {
        Wall::Lower
    } else {
        Wall::Clear
    }
}

/// No outside force. The cell is left as it is.
pub fn force_none(_t: Scalar, c: &mut Cell, _i: usize, _s: &Settings) -> (p: Push)
    ensures
        p == push_of(ForceFunc::NoForce, _t, old(c).pos.y),
        *final(c) == *old(c),
{
    Push { wall: Wall::Clear, thrust: Thrust::Idle }
}

/// A cell that is pinned but for one time unit in ten, in which it is let go
/// and pushed steadily.
pub fn force_constrained(t: Scalar, c: &mut Cell, i: usize, s: &Settings) -> (p: Push)
    ensures
        p == push_of(ForceFunc::Constrained, t, old(c).pos.y),
        final(c)@ == (crate::cell::CellView { fixed: !released(t), ..old(c)@ }),
{
    let wall = linear_restraint(t, c, i, s);
    let mut thrust = Thrust::Idle;
    c.fixed = true;
    if is_released(t) {
        c.fixed = false;
        thrust = Thrust::Steady;
    }
    Push { wall, thrust }
}

/// A cell that is driven by a sine wave. Its pin is left as it is.
pub fn force_sine(t: Scalar, c: &mut Cell, i: usize, s: &Settings) -> (p: Push)
    ensures
        p == push_of(ForceFunc::Sine, t, old(c).pos.y),
        *final(c) == *old(c),
{
    let wall = linear_restraint(t, c, i, s);
    Push { wall, thrust: Thrust::Wave }
}

/// The force of variant `e` on cell `c`, which is the `i`-th of its network,
/// at time `t`.
pub fn force_func(e: &ForceFunc, t: Scalar, c: &mut Cell, i: usize, s: &Settings) -> (p: Push)
    ensures
        p == push_of(*e, t, old(c).pos.y),
        final(c)@ == (crate::cell::CellView { fixed: pin_after(*e, t, old(c).fixed), ..old(c)@ }),
{
    match e {
        ForceFunc::NoForce => force_none(t, c, i, s),
        ForceFunc::Constrained => force_constrained(t, c, i, s),
        ForceFunc::Sine => force_sine(t, c, i, s),
    }
}

} // verus!
