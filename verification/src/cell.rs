//! Cells and the networks they form.

use vstd::prelude::*;
use crate::forces::ForceFunc;
use crate::scalar::Scalar;
use crate::update::UpdateFunc;
use crate::RustfilmError;

verus! {

/// A point or a vector of the plane.
#[derive(Debug, Clone, Copy, PartialEq, Eq, Structural)]
pub struct Pos {
    pub x: Scalar,
    pub y: Scalar,
}

/// A two-by-two tensor, row by row: `a b / c d`.
#[derive(Debug, Clone, Copy, PartialEq, Eq, Structural)]
pub struct Stress {
    pub a: Scalar,
    pub b: Scalar,
    pub c: Scalar,
    pub d: Scalar,
}

/// A circular cell of a network.
#[derive(Debug)]
pub struct Cell {
    /// Where the cell is.
    pub pos: Pos,
    pub radius: Scalar,
    /// The cells joined to this one by a spring of the short rest length, by
    /// their index in the network.
    pub neighbor_close: Vec<usize>,
    /// The cells joined to this one by a spring of the long rest length.
    pub neighbor_far: Vec<usize>,
    /// A pinned cell stays where it is.
    pub fixed: bool,
    /// The scalar stress, once a stress pass has run.
    pub stress: Option<Scalar>,
    pub update: UpdateFunc,
    pub force: ForceFunc,
    /// Where the cell was made.
    pub initial_pos: Pos,
    /// The displacement since the cell was made, once a strain pass has run.
    pub strain: Option<Pos>,
    /// The stress tensor, once a stress pass has run.
    pub tensor_stress: Option<Stress>,
}

/// What a cell holds.
pub struct CellView {
    pub pos: Pos,
    pub radius: Scalar,
    pub neighbor_close: Seq<usize>,
    pub neighbor_far: Seq<usize>,
    pub fixed: bool,
    pub stress: Option<Scalar>,
    pub update: UpdateFunc,
    pub force: ForceFunc,
    pub initial_pos: Pos,
    pub strain: Option<Pos>,
    pub tensor_stress: Option<Stress>,
}

impl View for Cell {
    type V = CellView;

    open spec fn view(&self) -> CellView {
        CellView {
            pos: self.pos,
            radius: self.radius,
            neighbor_close: self.neighbor_close@,
            neighbor_far: self.neighbor_far@,
            fixed: self.fixed,
            stress: self.stress,
            update: self.update,
            force: self.force,
            initial_pos: self.initial_pos,
            strain: self.strain,
            tensor_stress: self.tensor_stress,
        }
    }
}

/// What the cells of a network hold, in order.
pub open spec fn views(cells: Seq<Cell>) -> Seq<CellView> {
    Seq::new(cells.len(), |i: int| cells[i]@)
}

/// The cell that is made at `(x, y)`: free, joined to nothing, under no
/// force, with no diagnostics yet.
pub open spec fn fresh(x: Scalar, y: Scalar, radius: Scalar) -> CellView {
    CellView {
        pos: Pos { x, y },
        radius,
        neighbor_close: Seq::empty(),
        neighbor_far: Seq::empty(),
        fixed: false,
        stress: None,
        update: UpdateFunc::NoUpdate,
        force: ForceFunc::NoForce,
        initial_pos: Pos { x, y },
        strain: None,
        tensor_stress: None,
    }
}

/// The message of the error for a radius that is not positive.
pub open spec fn radius_message() -> Seq<char> {
    "InvalidGeometry: radius must be positive"@
}

/// The neighbour lists of cell `i` fit a network of `n` cells: every index
/// names another cell of the network, and none stands in both lists.
pub open spec fn links_fit(c: CellView, i: int, n: int) -> bool {
    &&& forall|k: int|
        0 <= k < c.neighbor_close.len() ==> #[trigger] c.neighbor_close[k] < n
            && c.neighbor_close[k] != i
    &&& forall|k: int|
        0 <= k < c.neighbor_far.len() ==> #[trigger] c.neighbor_far[k] < n && c.neighbor_far[k]
            != i
    &&& forall|k: int, l: int|
        0 <= k < c.neighbor_close.len() && 0 <= l < c.neighbor_far.len()
            ==> #[trigger] c.neighbor_close[k] != #[trigger] c.neighbor_far[l]
}

/// The neighbour lists of every cell fit the network.
pub open spec fn well_linked(cells: Seq<CellView>) -> bool {
    forall|i: int| 0 <= i < cells.len() ==> links_fit(#[trigger] cells[i], i, cells.len() as int)
}

impl Cell {
    /// A cell at `(x, y)`. A radius that is zero or less is refused; one
    /// that is a NaN is let through.
    pub fn new(x: Scalar, y: Scalar, radius: Scalar) -> (r: Result<Cell, RustfilmError>)
        ensures
            r is Err <==> radius.spec_le(Scalar { bits: 0 }),
            r matches Ok(c) ==> c@ == fresh(x, y, radius),
            r matches Err(e) ==> e.error@ == radius_message(),
    {
        if radius.le(Scalar::zero()) {
            return Err(RustfilmError::new("InvalidGeometry: radius must be positive"));
        }
        Ok(
            Cell {
                pos: Pos { x, y },
                radius,
                neighbor_close: Vec::new(),
                neighbor_far: Vec::new(),
                fixed: false,
                stress: None,
                update: UpdateFunc::NoUpdate,
                force: ForceFunc::NoForce,
                initial_pos: Pos { x, y },
                strain: None,
                tensor_stress: None,
            },
        )
    }

    /// A copy of the cell.
    pub fn duplicate(&self) -> (c: Cell)
        ensures
            c@ == self@,
    {
        Cell {
            pos: self.pos,
            radius: self.radius,
            neighbor_close: copy_indices(&self.neighbor_close),
            neighbor_far: copy_indices(&self.neighbor_far),
            fixed: self.fixed,
            stress: self.stress,
            update: self.update,
            force: self.force,
            initial_pos: self.initial_pos,
            strain: self.strain,
            tensor_stress: self.tensor_stress,
        }
    }
}

impl Clone for Cell {
    fn clone(&self) -> (c: Cell)
        ensures
            c@ == self@,
    {
        self.duplicate()
    }
}

fn copy_indices(list: &Vec<usize>) -> (copy: Vec<usize>)
    ensures
        copy@ == list@,
{
    let mut copy: Vec<usize> = Vec::new();
    let mut k: usize = 0;
    while k < list.len()
        invariant
            k <= list.len(),
            copy@ == list@.take(k as int),
        decreases list.len() - k,
    {
        copy.push(list[k]);
        assert(list@.take(k as int + 1) == list@.take(k as int).push(list@[k as int]));
        k = k + 1;
    }
    assert(list@.take(list@.len() as int) == list@);
    copy
}

/// `list` holds `j`.
pub fn holds(list: &Vec<usize>, j: usize) -> (r: bool)
    ensures
        r == list@.contains(j),
{
    let mut k: usize = 0;
    while k < list.len()
        invariant
            k <= list.len(),
            forall|l: int| 0 <= l < k ==> list@[l] != j,
        decreases list.len() - k,
    {
        if list[k] == j {
            return true;
        }
        k = k + 1;
    }
    false
}

/// A copy of a network.
pub fn copy_cells(cells: &Vec<Cell>) -> (copy: Vec<Cell>)
    ensures
        views(copy@) == views(cells@),
{
    let mut copy: Vec<Cell> = Vec::new();
    let mut k: usize = 0;
    while k < cells.len()
        invariant
            k <= cells.len(),
            copy@.len() == k,
            forall|l: int| 0 <= l < k ==> copy@[l]@ == cells@[l]@,
        decreases cells.len() - k,
    {
        copy.push(cells[k].duplicate());
        k = k + 1;
    }
    assert(views(copy@) =~= views(cells@));
    copy
}

/// Every index in `list` names a cell of a network of `n` other than the `i`-th.
fn names_others(list: &Vec<usize>, i: usize, n: usize) -> (r: bool)
    ensures
        r == (forall|k: int| 0 <= k < list@.len() ==> #[trigger] list@[k] < n && list@[k] != i),
{
    let mut k: usize = 0;
    while k < list.len()
        invariant
            k <= list.len(),
            forall|l: int| 0 <= l < k ==> #[trigger] list@[l] < n && list@[l] != i,
        decreases list.len() - k,
    {
        if list[k] >= n || list[k] == i {
            return false;
        }
        k = k + 1;
    }
    true
}

/// No index stands in both lists.
fn disjoint(first: &Vec<usize>, second: &Vec<usize>) -> (r: bool)
    ensures
        r == (forall|k: int, l: int|
            0 <= k < first@.len() && 0 <= l < second@.len() ==> #[trigger] first@[k]
                != #[trigger] second@[l]),
{
    let mut k: usize = 0;
    while k < first.len()
        invariant
            k <= first.len(),
            forall|m: int, l: int|
                0 <= m < k && 0 <= l < second@.len() ==> #[trigger] first@[m]
                    != #[trigger] second@[l],
        decreases first.len() - k,
    {
        if holds(second, first[k]) {
            let ghost at = k as int;
            let ghost l = choose|l: int| 0 <= l < second@.len() && second@[l] == first@[at];
            assert(first@[at] == second@[l]);
            return false;
        }
        proof {
            let at = k as int;
            assert forall|l: int| 0 <= l < second@.len() implies second@[l] != first@[at] by {
                if second@[l] == first@[at] {
                    assert(second@.contains(first@[at]));
                }
            }
        }
        k = k + 1;
    }
    true
}

/// The neighbour lists of every cell fit the network.
pub fn is_well_linked(grid: &Vec<Cell>) -> (r: bool)
    ensures
        r == well_linked(views(grid@)),
{
    let n: usize = grid.len();
    let mut i: usize = 0;
    while i < n
        invariant
            i <= n,
            n == grid@.len(),
            forall|m: int| 0 <= m < i ==> links_fit(#[trigger] views(grid@)[m], m, n as int),
        decreases n - i,
    {
        let c = &grid[i];
        let fits: bool = names_others(&c.neighbor_close, i, n) && names_others(
            &c.neighbor_far,
            i,
            n,
        ) && disjoint(&c.neighbor_close, &c.neighbor_far);
        proof {
            let v = views(grid@)[i as int];
            assert(v == c@);
            assert(v.neighbor_close == c.neighbor_close@);
            assert(v.neighbor_far == c.neighbor_far@);
            assert(fits == links_fit(v, i as int, n as int));
        }
        if !fits {
            return false;
        }
        i = i + 1;
    }
    true
}

/// A spring between two cells of a network: the cells it joins, its force
/// and its rest length.
#[derive(Debug)]
pub struct ForceLink {
    parties: (usize, usize),
    value: Scalar,
    relax_length: Scalar,
}

impl ForceLink {
    pub closed spec fn parties(&self) -> (usize, usize) {
        self.parties
    }

    pub closed spec fn value(&self) -> Scalar {
        self.value
    }

    pub closed spec fn relax_length(&self) -> Scalar {
        self.relax_length
    }

    /// A link between the cells `first` and `second`.
    pub fn new(first: usize, second: usize, val: Scalar, relax: Scalar) -> (link: ForceLink)
        ensures
            link.parties() == (first, second),
            link.value() == val,
            link.relax_length() == relax,
    {
        ForceLink { parties: (first, second), value: val, relax_length: relax }
    }
}

} // verus!
