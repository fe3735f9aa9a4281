//! The constants of a simulation, and how the command line overrides them.

use vstd::prelude::*;
use vstd::string::*;
use crate::scalar::Scalar;
use crate::RustfilmError;

verus! {

/// The constants that a simulation runs on.
#[derive(Debug, Clone, Copy, PartialEq, Eq, Structural)]
pub struct Settings {
    /// Stiffness of the springs.
    pub spring_k: Scalar,
    /// Rest length of the springs between close neighbours.
    pub spring_relax_close: Scalar,
    /// Rest length of the springs between far neighbours.
    pub spring_relax_far: Scalar,
    /// What a net force is divided by to give a velocity.
    pub damping: Scalar,
    /// How long the simulation runs.
    pub del_t: Scalar,
    /// Amplitude of the sine drive.
    pub sineamp: Scalar,
    /// Angular frequency of the sine drive.
    pub sineomega: Scalar,
    /// The steady outside force.
    pub extforce_x: Scalar,
    pub lj_epsilon: Scalar,
    pub lj_sigma: Scalar,
    /// Stiffness of the channel's walls.
    pub restraint_k: Scalar,
    /// The distance below which two cells repel each other.
    pub repl_dist: Scalar,
    pub repl_min: Scalar,
    pub repl_epsilon: Scalar,
    /// Rows of the lattice.
    pub nrows: usize,
}

/// What the command line held for a name that takes a number.
#[derive(Debug, Clone, Copy, PartialEq, Eq, Structural)]
pub enum Given {
    /// The name was not given.
    Absent,
    /// The name was given with text that is no number.
    Malformed,
    /// The name was given with this number.
    Value(Scalar),
}

/// What the command line held for a name that takes a count.
#[derive(Debug, Clone, Copy, PartialEq, Eq, Structural)]
pub enum GivenCount {
    Absent,
    Malformed,
    Value(usize),
}

/// What the command line held for each name, in the order in which the names
/// are looked at.
#[derive(Debug, Clone, Copy, PartialEq, Eq, Structural)]
pub struct Arguments {
    pub spring_k: Given,
    pub damping: Given,
    pub del_t: Given,
    pub sineamp: Given,
    pub sineomega: Given,
    pub extforce_x: Given,
    pub lj_epsilon: Given,
    pub lj_sigma: Given,
    pub restraint_k: Given,
    pub repl_dist: Given,
    pub repl_min: Given,
    pub repl_epsilon: Given,
    pub nrows: GivenCount,
}

/// The values that a name may take.
#[derive(Debug, Clone, Copy, PartialEq, Eq, Structural)]
pub enum Bound {
    /// Above zero, or a NaN.
    Positive,
    /// Zero or above, or a NaN.
    NonNegative,
    /// Any.
    Free,
}

/// The number of names.
pub const NAMES: usize = 13;

/// The settings that a run starts from.
pub open spec fn defaults() -> Settings {
    Settings {
        spring_k: Scalar { bits: 0x3FF0_0000_0000_0000 },
        spring_relax_close: Scalar { bits: 0x3FA4_7AE1_47AE_147B },
        spring_relax_far: Scalar { bits: 0x3FA4_7AE1_47AE_147B },
        damping: Scalar { bits: 0x3FF0_0000_0000_0000 },
        del_t: Scalar { bits: 0x4034_0000_0000_0000 },
        sineamp: Scalar { bits: 0x3FF0_0000_0000_0000 },
        sineomega: Scalar { bits: 0x4009_21FB_5444_2D18 },
        extforce_x: Scalar { bits: 0x3FA9_9999_9999_999A },
        lj_epsilon: Scalar { bits: 0x3FA9_9999_9999_999A },
        lj_sigma: Scalar { bits: 0x3FB0_A3D7_0A3D_70A4 },
        restraint_k: Scalar { bits: 0x4024_0000_0000_0000 },
        repl_dist: Scalar { bits: 0x3F88_9374_BC6A_7EFA },
        repl_min: Scalar { bits: 0x3F84_7AE1_47AE_147B },
        repl_epsilon: Scalar { bits: 0x4014_0000_0000_0000 },
        nrows: 10,
    }
}

/// What stands under a name once the command line was looked at.
pub open spec fn stored(before: Scalar, g: Given) -> Scalar {
    match g {
        Given::Value(v) => v,
        _ => before,
    }
}

/// The count that stands under a name once the command line was looked at.
pub open spec fn stored_count(before: usize, g: GivenCount) -> usize {
    match g {
        GivenCount::Value(v) => v,
        _ => before,
    }
}

/// The complaint about what was given for `name`, if there is one.
pub open spec fn fault(g: Given, bound: Bound, name: Seq<char>) -> Option<Seq<char>> {
    match g {
        Given::Absent => None,
        Given::Malformed => Some(name + " failed to parse"@),
        Given::Value(v) => match bound {
            Bound::Positive => if v.spec_le(Scalar { bits: 0 }) {
                Some(name + " must be positive"@)
            } else {
                None
            },
            Bound::NonNegative => if v.spec_lt(Scalar { bits: 0 }) {
                Some(name + " must be nonnegative"@)
            } else {
                None
            },
            Bound::Free => None,
        },
    }
}

/// The complaint about what was given for the count `name`, if there is one.
pub open spec fn count_fault(g: GivenCount, name: Seq<char>) -> Option<Seq<char>> {
    match g {
        GivenCount::Malformed => Some(name + " failed to parse"@),
        _ => None,
    }
}

/// The complaint about the `k`-th name.
pub open spec fn fault_at(a: Arguments, k: int) -> Option<Seq<char>> {
    if k == 0 {
        fault(a.spring_k, Bound::Positive, "spring_k"@)
    } else if k == 1 {
        fault(a.damping, Bound::Positive, "damping"@)
    } else if k == 2 {
        fault(a.del_t, Bound::Positive, "del_t"@)
    } else if k == 3 {
        fault(a.sineamp, Bound::Free, "sineamp"@)
    } else if k == 4 {
        fault(a.sineomega, Bound::Positive, "sineomega"@)
    } else if k == 5 {
        fault(a.extforce_x, Bound::Free, "extforce_x"@)
    } else if k == 6 {
        fault(a.lj_epsilon, Bound::Positive, "lj_epsilon"@)
    } else if k == 7 {
        fault(a.lj_sigma, Bound::Positive, "lj_sigma"@)
    } else if k == 8 {
        fault(a.restraint_k, Bound::NonNegative, "restraint_k"@)
    } else if k == 9 {
        fault(a.repl_dist, Bound::Positive, "repl_dist"@)
    } else if k == 10 {
        fault(a.repl_min, Bound::Positive, "repl_min"@)
    } else if k == 11 {
        fault(a.repl_epsilon, Bound::NonNegative, "repl_epsilon"@)
    } else if k == 12 {
        count_fault(a.nrows, "nrows"@)
    } else {
        None
    }
}

/// A name before the `k`-th drew a complaint, so the `k`-th is not looked at.
pub open spec fn halted(a: Arguments, k: int) -> bool
    decreases k,
{
    k > 0 && (fault_at(a, k - 1) is Some || halted(a, k - 1))
}

/// The first complaint among the names from the `k`-th on.
pub open spec fn first_fault(a: Arguments, k: int) -> Option<Seq<char>>
    decreases NAMES - k,
{
    if k < 0 || k >= NAMES {
        None
    } else if fault_at(a, k) is Some {
        fault_at(a, k)
    } else {
        first_fault(a, k + 1)
    }
}

/// What stands under the `k`-th name after the command line was looked at.
pub open spec fn kept(before: Scalar, g: Given, a: Arguments, k: int) -> Scalar {
    if halted(a, k) {
        before
    } else {
        stored(before, g)
    }
}

/// The settings after the command line was looked at: each name up to the
/// first complaint holds what was given for it, the others what they held.
pub open spec fn overridden(s: Settings, a: Arguments) -> Settings {
    Settings {
        spring_k: kept(s.spring_k, a.spring_k, a, 0),
        spring_relax_close: s.spring_relax_close,
        spring_relax_far: s.spring_relax_far,
        damping: kept(s.damping, a.damping, a, 1),
        del_t: kept(s.del_t, a.del_t, a, 2),
        sineamp: kept(s.sineamp, a.sineamp, a, 3),
        sineomega: kept(s.sineomega, a.sineomega, a, 4),
        extforce_x: kept(s.extforce_x, a.extforce_x, a, 5),
        lj_epsilon: kept(s.lj_epsilon, a.lj_epsilon, a, 6),
        lj_sigma: kept(s.lj_sigma, a.lj_sigma, a, 7),
        restraint_k: kept(s.restraint_k, a.restraint_k, a, 8),
        repl_dist: kept(s.repl_dist, a.repl_dist, a, 9),
        repl_min: kept(s.repl_min, a.repl_min, a, 10),
        repl_epsilon: kept(s.repl_epsilon, a.repl_epsilon, a, 11),
        nrows: if halted(a, 12) {
            s.nrows
        } else {
            stored_count(s.nrows, a.nrows)
        },
    }
}

/// Once a name has drawn a complaint, no later name is looked at.
pub proof fn lemma_halted_after(a: Arguments, k: int, j: int)
    requires
        0 <= k < j,
        fault_at(a, k) is Some,
    ensures
        halted(a, j),
    decreases j,
{
    if j > k + 1 {
        lemma_halted_after(a, k, j - 1);
    }
}

/// While no name has drawn a complaint, the first complaint lies ahead.
pub proof fn lemma_first_fault_ahead(a: Arguments, k: int)
    requires
        0 <= k <= NAMES,
        !halted(a, k),
    ensures
        first_fault(a, 0) == first_fault(a, k),
    decreases k,
{
    if k > 0 {
        lemma_first_fault_ahead(a, k - 1);
    }
}

fn settle(before: Scalar, g: &Given, bound: Bound, name: &str) -> (r: (
    Scalar,
    Option<RustfilmError>,
))
    ensures
        r.0 == stored(before, *g),
        r.1 is Some <==> fault(*g, bound, name@) is Some,
        r.1 matches Some(e) ==> Some(e.error@) == fault(*g, bound, name@),
{
    match g {
        Given::Absent => (before, None),
        Given::Malformed => {
            let text = String::from_str(name).concat(" failed to parse");
            (before, Some(RustfilmError { error: text }))
        },
        Given::Value(v) => {
            let broken: bool = match bound {
                Bound::Positive => v.le(Scalar::zero()),
                Bound::NonNegative => v.lt(Scalar::zero()),
                Bound::Free => false,
            };
            if !broken {
                (*v, None)
            } else {
                let text = match bound {
                    Bound::NonNegative => String::from_str(name).concat(" must be nonnegative"),
                    _ => String::from_str(name).concat(" must be positive"),
                };
                (*v, Some(RustfilmError { error: text }))
            }
        },
    }
}

impl Settings {
    /// The settings that a run starts from.
    pub fn new() -> (s: Settings)
        ensures
            s == defaults(),
    {
        Settings {
            spring_k: Scalar { bits: 0x3FF0_0000_0000_0000 },
            spring_relax_close: Scalar { bits: 0x3FA4_7AE1_47AE_147B },
            spring_relax_far: Scalar { bits: 0x3FA4_7AE1_47AE_147B },
            damping: Scalar { bits: 0x3FF0_0000_0000_0000 },
            del_t: Scalar { bits: 0x4034_0000_0000_0000 },
            sineamp: Scalar { bits: 0x3FF0_0000_0000_0000 },
            sineomega: Scalar { bits: 0x4009_21FB_5444_2D18 },
            extforce_x: Scalar { bits: 0x3FA9_9999_9999_999A },
            lj_epsilon: Scalar { bits: 0x3FA9_9999_9999_999A },
            lj_sigma: Scalar { bits: 0x3FB0_A3D7_0A3D_70A4 },
            restraint_k: Scalar { bits: 0x4024_0000_0000_0000 },
            repl_dist: Scalar { bits: 0x3F88_9374_BC6A_7EFA },
            repl_min: Scalar { bits: 0x3F84_7AE1_47AE_147B },
            repl_epsilon: Scalar { bits: 0x4014_0000_0000_0000 },
            nrows: 10,
        }
    }

    /// Takes over what the command line gave. The names are looked at in a
    /// fixed order; the first that was given with text that is no number,
    /// or with a number out of its bound, ends the pass with its complaint.
    /// A number out of its bound is stored all the same.
    pub fn args(&mut self, given: &Arguments) -> (e: Option<RustfilmError>)
        ensures
            *final(self) == overridden(*old(self), *given),
            e is Some <==> first_fault(*given, 0) is Some,
            e matches Some(err) ==> Some(err.error@) == first_fault(*given, 0),
    {
        let ghost a = *given;
        let ghost s0 = *self;
        let r = settle(self.spring_k, &given.spring_k, Bound::Positive, "spring_k");
        self.spring_k = r.0;
        if r.1.is_some() {
            proof {
                lemma_stop(a, 0);
            }
            return r.1;
        }
        let r = settle(self.damping, &given.damping, Bound::Positive, "damping");
        self.damping = r.0;
        if r.1.is_some() {
            proof {
                lemma_stop(a, 1);
            }
            return r.1;
        }
        let r = settle(self.del_t, &given.del_t, Bound::Positive, "del_t");
        self.del_t = r.0;
        if r.1.is_some() {
            proof {
                lemma_stop(a, 2);
            }
            return r.1;
        }
        let r = settle(self.sineamp, &given.sineamp, Bound::Free, "sineamp");
        self.sineamp = r.0;
        if r.1.is_some() {
            proof {
                lemma_stop(a, 3);
            }
            return r.1;
        }
        let r = settle(self.sineomega, &given.sineomega, Bound::Positive, "sineomega");
        self.sineomega = r.0;
        if r.1.is_some() {
            proof {
                lemma_stop(a, 4);
            }
            return r.1;
        }
        let r = settle(self.extforce_x, &given.extforce_x, Bound::Free, "extforce_x");
        self.extforce_x = r.0;
        if r.1.is_some() {
            proof {
                lemma_stop(a, 5);
            }
            return r.1;
        }
        let r = settle(self.lj_epsilon, &given.lj_epsilon, Bound::Positive, "lj_epsilon");
        self.lj_epsilon = r.0;
        if r.1.is_some() {
            proof {
                lemma_stop(a, 6);
            }
            return r.1;
        }
        let r = settle(self.lj_sigma, &given.lj_sigma, Bound::Positive, "lj_sigma");
        self.lj_sigma = r.0;
        if r.1.is_some() {
            proof {
                lemma_stop(a, 7);
            }
            return r.1;
        }
        let r = settle(self.restraint_k, &given.restraint_k, Bound::NonNegative, "restraint_k");
        self.restraint_k = r.0;
        if r.1.is_some() {
            proof {
                lemma_stop(a, 8);
            }
            return r.1;
        }
        let r = settle(self.repl_dist, &given.repl_dist, Bound::Positive, "repl_dist");
        self.repl_dist = r.0;
        if r.1.is_some() {
            proof {
                lemma_stop(a, 9);
            }
            return r.1;
        }
        let r = settle(self.repl_min, &given.repl_min, Bound::Positive, "repl_min");
        self.repl_min = r.0;
        if r.1.is_some() {
            proof {
                lemma_stop(a, 10);
            }
            return r.1;
        }
        let r = settle(self.repl_epsilon, &given.repl_epsilon, Bound::NonNegative, "repl_epsilon");
        self.repl_epsilon = r.0;
        if r.1.is_some() {
            proof {
                lemma_stop(a, 11);
            }
            return r.1;
        }
        proof {
            lemma_clear(a, 12);
        }
        match given.nrows {
            GivenCount::Absent => {
                proof {
                    lemma_clear(a, 13);
                    lemma_first_fault_ahead(a, 13);
                }
                None
            },
            GivenCount::Malformed => {
                proof {
                    lemma_stop(a, 12);
                }
                Some(RustfilmError { error: String::from_str("nrows").concat(" failed to parse") })
            },
            GivenCount::Value(n) => {
                proof {
                    lemma_clear(a, 13);
                    lemma_first_fault_ahead(a, 13);
                }
                self.nrows = n;
                None
            },
        }
    }
}

/// The `k`-th name is the first to draw a complaint: what that means for
/// every name and for the first complaint.
proof fn lemma_stop(a: Arguments, k: int)
    requires
        0 <= k < NAMES,
        forall|j: int| 0 <= j < k ==> fault_at(a, j) is None,
        fault_at(a, k) is Some,
    ensures
        forall|j: int| 0 <= j <= k ==> !halted(a, j),
        forall|j: int| k < j ==> halted(a, j),
        first_fault(a, 0) == fault_at(a, k),
{
    lemma_clear(a, k);
    assert forall|j: int| k < j implies halted(a, j) by {
        lemma_halted_after(a, k, j);
    }
    lemma_first_fault_ahead(a, k);
}

/// No name before the `k`-th drew a complaint.
proof fn lemma_clear(a: Arguments, k: int)
    requires
        0 <= k,
        forall|j: int| 0 <= j < k ==> fault_at(a, j) is None,
    ensures
        forall|j: int| 0 <= j <= k ==> !halted(a, j),
    decreases k,
{
    if k > 0 {
        lemma_clear(a, k - 1);
        assert(!halted(a, k - 1));
    }
    assert(!halted(a, k));
}

} // verus!
