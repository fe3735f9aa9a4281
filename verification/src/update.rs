//! The hooks that mark the cells of a lattice while it is laid out, and the
//! shift that a marked cell gets once the lattice stands.

use vstd::prelude::*;
use crate::cell::{Cell, CellView, Pos};
use crate::forces::ForceFunc;
use crate::scalar::Scalar;
use crate::settings::Settings;

verus! {

/// The pattern of minus one fortieth, the shift of each coordinate of a
/// plucked cell.
pub const PLUCK_SHIFT_BITS: u64 = 0xBF99_9999_9999_999A;

/// How the boundary of a lattice is treated.
#[derive(Debug, PartialEq, Eq, Clone, Copy, Structural)]
pub enum UpdateFunc {
    /// The boundary is left alone.
    NoUpdate,
    /// The last column is pinned, the first is under the constrained force.
    Constrained,
    /// The last column is pinned, the first is under the sine force.
    Sine,
    /// The corner cell is pinned and pulled out of its place.
    Pluck,
}

/// A hook on the cells of the major rows of a lattice.
#[derive(Debug, PartialEq, Eq, Clone, Copy, Structural)]
pub enum Hook {
    ConstrainedMajor,
    SineMajor,
    PluckMajor,
}

/// The treatment that a name stands for; an unknown name stands for none.
pub open spec fn named(name: Seq<char>) -> UpdateFunc {
    if name == "none"@ {
        UpdateFunc::NoUpdate
    } else if name == "constrained"@ {
        UpdateFunc::Constrained
    } else if name == "sine"@ {
        UpdateFunc::Sine
    } else if name == "pluck"@ {
        UpdateFunc::Pluck
    } else {
        UpdateFunc::NoUpdate
    }
}

/// The shift of a plucked cell.
pub open spec fn pluck_shift() -> Pos {
    Pos { x: Scalar { bits: PLUCK_SHIFT_BITS }, y: Scalar { bits: PLUCK_SHIFT_BITS } }
}

/// A cell after the major hook of the constrained treatment, in column `j`
/// of `nrows`: the last column is pinned, the first is put under the
/// constrained force.
pub open spec fn constrained_mark(c: CellView, j: usize, nrows: usize) -> CellView {
    if nrows >= 1 && j == nrows - 1 {
        CellView { fixed: true, ..c }
    } else if j == 0 {
        CellView { force: ForceFunc::Constrained, ..c }
    } else {
        c
    }
}

/// A cell after the major hook of the sine treatment, in column `j` of
/// `nrows`: the last column is pinned, the first is put under the sine force.
pub open spec fn sine_mark(c: CellView, j: usize, nrows: usize) -> CellView {
    if nrows >= 1 && j == nrows - 1 {
        CellView { fixed: true, ..c }
    } else if j == 0 {
        CellView { force: ForceFunc::Sine, ..c }
    } else {
        c
    }
}

/// A cell after the major hook of the pluck treatment, in row `i` and column
/// `j`: the corner cell is pinned and marked to be plucked.
pub open spec fn pluck_mark(c: CellView, i: usize, j: usize) -> CellView {
    if i == 0 && j == 0 {
        CellView { update: UpdateFunc::Pluck, fixed: true, ..c }
    } else {
        c
    }
}

/// A cell after a hook at row `i` and column `j`.
pub open spec fn marked(h: Hook, c: CellView, i: usize, j: usize, nrows: usize) -> CellView {
    match h {
        Hook::ConstrainedMajor => constrained_mark(c, j, nrows),
        Hook::SineMajor => sine_mark(c, j, nrows),
        Hook::PluckMajor => pluck_mark(c, i, j),
    }
}

/// The shift that a cell's treatment asks for once the lattice stands: none,
/// but for a plucked cell. The caller adds it to the cell's position.
pub fn update(cell: &Cell) -> (shift: Option<Pos>)
    ensures
        shift == if cell.update == UpdateFunc::Pluck {
            Some(pluck_shift())
        } else {
            None
        },
{
    match cell.update {
        UpdateFunc::NoUpdate => None,
        UpdateFunc::Constrained => None,
        UpdateFunc::Sine => None,
        UpdateFunc::Pluck => Some(pluck(cell)),
    }
}

/// The treatment that `name` stands for.
pub fn func_enum(name: &str) -> (e: UpdateFunc)
    ensures
        e == named(name@),
{
    let given = name.to_owned();
    if given == "none".to_owned() {
        UpdateFunc::NoUpdate
    } else if given == "constrained".to_owned() {
        UpdateFunc::Constrained
    } else if given == "sine".to_owned() {
        UpdateFunc::Sine
    } else if given == "pluck".to_owned() {
        UpdateFunc::Pluck
    } else {
        UpdateFunc::NoUpdate
    }
}

/// The hook that a treatment puts on the major rows.
pub fn enum_major(e: &UpdateFunc) -> (h: Option<Hook>)
    ensures
        h == match *e {
            UpdateFunc::NoUpdate => None,
            UpdateFunc::Constrained => Some(Hook::ConstrainedMajor),
            UpdateFunc::Sine => Some(Hook::SineMajor),
            UpdateFunc::Pluck => Some(Hook::PluckMajor),
        },
{
    match e {
        UpdateFunc::NoUpdate => None,
        UpdateFunc::Constrained => Some(Hook::ConstrainedMajor),
        UpdateFunc::Sine => Some(Hook::SineMajor),
        UpdateFunc::Pluck => Some(Hook::PluckMajor),
    }
}

/// The hook that a treatment puts on the minor rows: no treatment has one.
pub fn enum_minor(e: &UpdateFunc) -> (h: Option<Hook>)
    ensures
        h is None,
{
    match e {
        UpdateFunc::NoUpdate => None,
        UpdateFunc::Constrained => None,
        UpdateFunc::Sine => None,
        UpdateFunc::Pluck => None,
    }
}

/// Runs hook `h` on the cell at row `i` and column `j`.
pub fn apply_hook(h: Hook, i: usize, j: usize, c: &mut Cell, s: &Settings)
    ensures
        final(c)@ == marked(h, old(c)@, i, j, s.nrows),
{
    match h {
        Hook::ConstrainedMajor => constrained_major(i, j, c, s),
        Hook::SineMajor => sine_major(i, j, c, s),
        Hook::PluckMajor => pluck_major(i, j, c, s),
    }
}

/// The major hook of the constrained treatment.
pub fn constrained_major(_i: usize, j: usize, c: &mut Cell, s: &Settings)
    ensures
        final(c)@ == constrained_mark(old(c)@, j, s.nrows),
{
    if s.nrows >= 1 && j == s.nrows - 1 {
        c.fixed = true;
    } else if j == 0 {
        c.force = ForceFunc::Constrained;
    }
}

/// The major hook of the sine treatment.
pub fn sine_major(_i: usize, j: usize, c: &mut Cell, s: &Settings)
    ensures
        final(c)@ == sine_mark(old(c)@, j, s.nrows),
{
    if s.nrows >= 1 && j == s.nrows - 1 {
        c.fixed = true;
    } else if j == 0 {
        c.force = ForceFunc::Sine;
    }
}

/// The major hook of the pluck treatment.
pub fn pluck_major(i: usize, j: usize, c: &mut Cell, _s: &Settings)
    ensures
        final(c)@ == pluck_mark(old(c)@, i, j),
{
    if i == 0 && j == 0 {
        c.update = UpdateFunc::Pluck;
        c.fixed = true;
    }
}

/// The shift of a plucked cell: a fortieth down along each axis.
pub fn pluck(_c: &Cell) -> (shift: Pos)
    ensures
        shift == pluck_shift(),
{
    Pos { x: Scalar { bits: PLUCK_SHIFT_BITS }, y: Scalar { bits: PLUCK_SHIFT_BITS } }
}

} // verus!
