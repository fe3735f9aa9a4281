//! The coefficients of the integration methods, as exact fractions.
//!
//! A one-step method of `n` stages evaluates the derivative `n` times. Stage
//! `k` is evaluated at the time `t + node(k) * dt`, in the state
//! `y + sum over j < k of coupling(k, j) * dt * f_j`; the step leads to
//! `y + sum over k of weight(k) * dt * f_k`. Where a method carries a
//! companion solution of lower order, the two differ by the estimate of the
//! step's error.

use vstd::prelude::*;

verus! {

/// A whole number of which every denominator in this module is a divisor.
pub const UNIT: i64 = 9_918_136_800;

/// The number of newest entries that the multistep method builds on.
pub const HISTORY: usize = 4;

/// The steps that the classical method takes before the multistep method
/// has its history.
pub const BOOTSTRAP_STEPS: usize = 3;

/// How far before the newest entry the predictor starts: at the oldest of
/// the entries it builds on.
pub const PREDICTOR_BASE: usize = 3;

/// How far before the newest entry the corrector starts: at the newest.
pub const CORRECTOR_BASE: usize = 0;

/// A fraction in lowest terms, with a denominator above zero.
#[derive(Debug, Clone, Copy, PartialEq, Eq, Structural)]
pub struct Ratio {
    pub num: i64,
    pub den: i64,
}

/// A one-step method.
#[derive(Debug, Clone, Copy, PartialEq, Eq, Structural)]
pub enum Scheme {
    /// Euler's method: one stage.
    Euler,
    /// The classical Runge-Kutta method: four stages, weights 1/6, 1/3, 1/3, 1/6.
    Classic,
    /// Fehlberg's embedded pair: six stages, a solution of fifth order and
    /// a companion of fourth.
    Fehlberg,
}

/// What a fraction stands for.
pub struct Frac {
    pub num: int,
    pub den: int,
}

impl View for Ratio {
    type V = Frac;

    open spec fn view(&self) -> Frac {
        Frac { num: self.num as int, den: self.den as int }
    }
}

/// The fraction `num / den`.
pub open spec fn frac(num: int, den: int) -> Frac {
    Frac { num, den }
}

/// How many `UNIT`-ths a fraction is.
pub open spec fn units(r: Frac) -> int {
    r.num * (UNIT as int / r.den)
}

/// The number of stages.
pub open spec fn stages_of(s: Scheme) -> int {
    match s {
        Scheme::Euler => 1,
        Scheme::Classic => 4,
        Scheme::Fehlberg => 6,
    }
}

/// Where in the step stage `k` is evaluated, as a part of the step.
pub open spec fn node_of(s: Scheme, k: int) -> Frac {
    match s {
        Scheme::Euler => frac(0, 1),
        Scheme::Classic => if k == 1 || k == 2 {
            frac(1, 2)
        } else if k == 3 {
            frac(1, 1)
        } else {
            frac(0, 1)
        },
        Scheme::Fehlberg => if k == 1 {
            frac(1, 4)
        } else if k == 2 {
            frac(3, 8)
        } else if k == 3 {
            frac(12, 13)
        } else if k == 4 {
            frac(1, 1)
        } else if k == 5 {
            frac(1, 2)
        } else {
            frac(0, 1)
        },
    }
}

/// The weight of the slope of stage `j` in the state of stage `k`.
pub open spec fn coupling_of(s: Scheme, k: int, j: int) -> Frac {
    match s {
        Scheme::Euler => frac(0, 1),
        Scheme::Classic => if (k == 1 && j == 0) || (k == 2 && j == 1) {
            frac(1, 2)
        } else if k == 3 && j == 2 {
            frac(1, 1)
        } else {
            frac(0, 1)
        },
        Scheme::Fehlberg => if k == 1 {
            if j == 0 {
                frac(1, 4)
            } else {
                frac(0, 1)
            }
        } else if k == 2 {
            if j == 0 {
                frac(3, 32)
            } else if j == 1 {
                frac(9, 32)
            } else {
                frac(0, 1)
            }
        } else if k == 3 {
            if j == 0 {
                frac(1932, 2197)
            } else if j == 1 {
                frac(-7200, 2197)
            } else if j == 2 {
                frac(7296, 2197)
            } else {
                frac(0, 1)
            }
        } else if k == 4 {
            if j == 0 {
                frac(439, 216)
            } else if j == 1 {
                frac(-8, 1)
            } else if j == 2 {
                frac(3680, 513)
            } else if j == 3 {
                frac(-845, 4104)
            } else {
                frac(0, 1)
            }
        } else if k == 5 {
            if j == 0 {
                frac(-8, 27)
            } else if j == 1 {
                frac(2, 1)
            } else if j == 2 {
                frac(-3544, 2565)
            } else if j == 3 {
                frac(1859, 4104)
            } else if j == 4 {
                frac(-11, 40)
            } else {
                frac(0, 1)
            }
        } else {
            frac(0, 1)
        },
    }
}

/// The weight of the slope of stage `k` in the solution.
pub open spec fn weight_of(s: Scheme, k: int) -> Frac {
    match s {
        Scheme::Euler => if k == 0 {
            frac(1, 1)
        } else {
            frac(0, 1)
        },
        Scheme::Classic => if k == 0 || k == 3 {
            frac(1, 6)
        } else if k == 1 || k == 2 {
            frac(1, 3)
        } else {
            frac(0, 1)
        },
        Scheme::Fehlberg => if k == 0 {
            frac(16, 135)
        } else if k == 2 {
            frac(6656, 12825)
        } else if k == 3 {
            frac(28561, 56430)
        } else if k == 4 {
            frac(-9, 50)
        } else if k == 5 {
            frac(2, 55)
        } else {
            frac(0, 1)
        },
    }
}

/// The weight of the slope of stage `k` in the companion solution. A
/// method that carries none has its solution for a companion.
pub open spec fn companion_of(s: Scheme, k: int) -> Frac {
    match s {
        Scheme::Fehlberg => if k == 0 {
            frac(25, 216)
        } else if k == 2 {
            frac(1408, 2565)
        } else if k == 3 {
            frac(2197, 4104)
        } else if k == 4 {
            frac(-1, 5)
        } else {
            frac(0, 1)
        },
        _ => weight_of(s, k),
    }
}

/// The weight of the `k`-th newest slope in the four-step predictor of
/// Adams and Bashforth: 55, -59, 37 and -9 twenty-fourths.
pub open spec fn bashforth_of(k: int) -> Frac {
    if k == 0 {
        frac(55, 24)
    } else if k == 1 {
        frac(-59, 24)
    } else if k == 2 {
        frac(37, 24)
    } else if k == 3 {
        frac(-9, 24)
    } else {
        frac(0, 1)
    }
}

/// The weights of the three-step corrector of Adams and Moulton: 9
/// twenty-fourths for the slope at the predicted state, then 19, -5 and 1
/// for the three newest slopes.
pub open spec fn moulton_of(k: int) -> Frac {
    if k == 0 {
        frac(9, 24)
    } else if k == 1 {
        frac(19, 24)
    } else if k == 2 {
        frac(-5, 24)
    } else if k == 3 {
        frac(1, 24)
    } else {
        frac(0, 1)
    }
}

impl Scheme {
    /// The number of stages.
    pub fn stages(self) -> (n: usize)
        ensures
            n == stages_of(self),
    {
        match self {
            Scheme::Euler => 1,
            Scheme::Classic => 4,
            Scheme::Fehlberg => 6,
        }
    }

    /// Where in the step stage `k` is evaluated, as a part of the step.
    pub fn node(self, k: usize) -> (r: Ratio)
        ensures
            r@ == node_of(self, k as int),
    {
        match self {
            Scheme::Euler => Ratio { num: 0, den: 1 },
            Scheme::Classic => if k == 1 || k == 2 {
                Ratio { num: 1, den: 2 }
            } else if k == 3 {
                Ratio { num: 1, den: 1 }
            } else {
                Ratio { num: 0, den: 1 }
            },
            Scheme::Fehlberg => if k == 1 {
                Ratio { num: 1, den: 4 }
            } else if k == 2 {
                Ratio { num: 3, den: 8 }
            } else if k == 3 {
                Ratio { num: 12, den: 13 }
            } else if k == 4 {
                Ratio { num: 1, den: 1 }
            } else if k == 5 {
                Ratio { num: 1, den: 2 }
            } else {
                Ratio { num: 0, den: 1 }
            },
        }
    }

    /// The weight of the slope of stage `j` in the state of stage `k`.
    pub fn coupling(self, k: usize, j: usize) -> (r: Ratio)
        ensures
            r@ == coupling_of(self, k as int, j as int),
    {
        match self {
            Scheme::Euler => Ratio { num: 0, den: 1 },
            Scheme::Classic => if (k == 1 && j == 0) || (k == 2 && j == 1) {
                Ratio { num: 1, den: 2 }
            } else if k == 3 && j == 2 {
                Ratio { num: 1, den: 1 }
            } else {
                Ratio { num: 0, den: 1 }
            },
            Scheme::Fehlberg => fehlberg_coupling(k, j),
        }
    }

    /// The weight of the slope of stage `k` in the solution.
    pub fn weight(self, k: usize) -> (r: Ratio)
        ensures
            r@ == weight_of(self, k as int),
    {
        match self {
            Scheme::Euler => if k == 0 {
                Ratio { num: 1, den: 1 }
            } else {
                Ratio { num: 0, den: 1 }
            },
            Scheme::Classic => if k == 0 || k == 3 {
                Ratio { num: 1, den: 6 }
            } else if k == 1 || k == 2 {
                Ratio { num: 1, den: 3 }
            } else {
                Ratio { num: 0, den: 1 }
            },
            Scheme::Fehlberg => if k == 0 {
                Ratio { num: 16, den: 135 }
            } else if k == 2 {
                Ratio { num: 6656, den: 12825 }
            } else if k == 3 {
                Ratio { num: 28561, den: 56430 }
            } else if k == 4 {
                Ratio { num: -9, den: 50 }
            } else if k == 5 {
                Ratio { num: 2, den: 55 }
            } else {
                Ratio { num: 0, den: 1 }
            },
        }
    }

    /// The weight of the slope of stage `k` in the companion solution.
    pub fn companion(self, k: usize) -> (r: Ratio)
        ensures
            r@ == companion_of(self, k as int),
    {
        match self {
            Scheme::Fehlberg => if k == 0 {
                Ratio { num: 25, den: 216 }
            } else if k == 2 {
                Ratio { num: 1408, den: 2565 }
            } else if k == 3 {
                Ratio { num: 2197, den: 4104 }
            } else if k == 4 {
                Ratio { num: -1, den: 5 }
            } else {
                Ratio { num: 0, den: 1 }
            },
            _ => self.weight(k),
        }
    }
}

fn fehlberg_coupling(k: usize, j: usize) -> (r: Ratio)
    ensures
        r@ == coupling_of(Scheme::Fehlberg, k as int, j as int),
{
    if k == 1 && j == 0 {
        Ratio { num: 1, den: 4 }
    } else if k == 2 && j == 0 {
        Ratio { num: 3, den: 32 }
    } else if k == 2 && j == 1 {
        Ratio { num: 9, den: 32 }
    } else if k == 3 && j == 0 {
        Ratio { num: 1932, den: 2197 }
    } else if k == 3 && j == 1 {
        Ratio { num: -7200, den: 2197 }
    } else if k == 3 && j == 2 {
        Ratio { num: 7296, den: 2197 }
    } else if k == 4 && j == 0 {
        Ratio { num: 439, den: 216 }
    } else if k == 4 && j == 1 {
        Ratio { num: -8, den: 1 }
    } else if k == 4 && j == 2 {
        Ratio { num: 3680, den: 513 }
    } else if k == 4 && j == 3 {
        Ratio { num: -845, den: 4104 }
    } else if k == 5 && j == 0 {
        Ratio { num: -8, den: 27 }
    } else if k == 5 && j == 1 {
        Ratio { num: 2, den: 1 }
    } else if k == 5 && j == 2 {
        Ratio { num: -3544, den: 2565 }
    } else if k == 5 && j == 3 {
        Ratio { num: 1859, den: 4104 }
    } else if k == 5 && j == 4 {
        Ratio { num: -11, den: 40 }
    } else {
        Ratio { num: 0, den: 1 }
    }
}

/// The weight of the `k`-th newest slope in the predictor.
pub fn bashforth(k: usize) -> (r: Ratio)
    ensures
        r@ == bashforth_of(k as int),
{
    if k == 0 {
        Ratio { num: 55, den: 24 }
    } else if k == 1 {
        Ratio { num: -59, den: 24 }
    } else if k == 2 {
        Ratio { num: 37, den: 24 }
    } else if k == 3 {
        Ratio { num: -9, den: 24 }
    } else {
        Ratio { num: 0, den: 1 }
    }
}

/// The weight of the `k`-th slope in the corrector, the slope at the
/// predicted state first.
pub fn moulton(k: usize) -> (r: Ratio)
    ensures
        r@ == moulton_of(k as int),
{
    if k == 0 {
        Ratio { num: 9, den: 24 }
    } else if k == 1 {
        Ratio { num: 19, den: 24 }
    } else if k == 2 {
        Ratio { num: -5, den: 24 }
    } else if k == 3 {
        Ratio { num: 1, den: 24 }
    } else {
        Ratio { num: 0, den: 1 }
    }
}

/// The factor of safety in the growth of the adaptive step: nine tenths.
pub fn safety() -> (r: Ratio)
    ensures
        r@ == frac(9, 10),
{
    Ratio { num: 9, den: 10 }
}

/// The power to which the ratio of tolerance and error is raised in the
/// growth of the adaptive step: one fifth.
pub fn growth_exponent() -> (r: Ratio)
    ensures
        r@ == frac(1, 5),
{
    Ratio { num: 1, den: 5 }
}

/// The sum of the couplings of stage `k` with the first `n` stages, in
/// `UNIT`-ths.
pub open spec fn coupling_total(s: Scheme, k: int, n: int) -> int
    decreases n,
{
    if n <= 0 {
        0
    } else {
        coupling_total(s, k, n - 1) + units(coupling_of(s, k, n - 1))
    }
}

/// The sum of the weights of the first `n` stages, in `UNIT`-ths.
pub open spec fn weight_total(s: Scheme, n: int) -> int
    decreases n,
{
    if n <= 0 {
        0
    } else {
        weight_total(s, n - 1) + units(weight_of(s, n - 1))
    }
}

/// The sum of the companion's weights of the first `n` stages, in `UNIT`-ths.
pub open spec fn companion_total(s: Scheme, n: int) -> int
    decreases n,
{
    if n <= 0 {
        0
    } else {
        companion_total(s, n - 1) + units(companion_of(s, n - 1))
    }
}

/// The sum of the first `n` weights of the predictor, in `UNIT`-ths.
pub open spec fn bashforth_total(n: int) -> int
    decreases n,
{
    if n <= 0 {
        0
    } else {
        bashforth_total(n - 1) + units(bashforth_of(n - 1))
    }
}

/// The sum of the first `n` weights of the corrector, in `UNIT`-ths.
pub open spec fn moulton_total(n: int) -> int
    decreases n,
{
    if n <= 0 {
        0
    } else {
        moulton_total(n - 1) + units(moulton_of(n - 1))
    }
}

/// A stage is built from the stages before it only.
pub proof fn lemma_explicit(s: Scheme, k: int, j: int)
    requires
        j >= k,
    ensures
        coupling_of(s, k, j) == frac(0, 1),
{
}

/// The couplings of a stage add up to its node: each stage is evaluated
/// where a constant slope would have led.
pub proof fn lemma_rows_meet_nodes(s: Scheme, k: int)
    requires
        0 <= k < stages_of(s),
    ensures
        coupling_total(s, k, k) == units(node_of(s, k)),
{
    if k == 0 {
        assert(node_of(s, 0) == frac(0, 1));
        lemma_units(0, 1, 9_918_136_800);
    } else {
        match s {
            Scheme::Euler => {},
            Scheme::Classic => {
                lemma_classic_row_1();
                lemma_classic_row_2();
                lemma_classic_row_3();
            },
            Scheme::Fehlberg => {
                lemma_fehlberg_row_1();
                lemma_fehlberg_row_2();
                lemma_fehlberg_row_3();
                lemma_fehlberg_row_4();
                lemma_fehlberg_row_5();
            },
        }
    }
}

/// The weights of a solution add up to one, and so do those of its companion.
pub proof fn lemma_weights_are_whole(s: Scheme)
    ensures
        weight_total(s, stages_of(s)) == UNIT,
        companion_total(s, stages_of(s)) == UNIT,
{
    match s {
        Scheme::Euler => {
            lemma_euler_weights();
            lemma_euler_companion();
        },
        Scheme::Classic => {
            lemma_classic_weights();
            lemma_classic_companion();
        },
        Scheme::Fehlberg => {
            lemma_fehlberg_weights();
            lemma_fehlberg_companion();
        },
    }
}

/// A fraction whose denominator divides `UNIT` into `lot` parts is `num`
/// times `lot` `UNIT`-ths.
proof fn lemma_units(num: int, den: int, lot: int)
    requires
        den > 0,
        den * lot == UNIT,
    ensures
        units(frac(num, den)) == num * lot,
{
    assert(UNIT as int / den == lot) by (nonlinear_arith)
        requires
            den > 0,
            den * lot == UNIT,
    ;
}

proof fn lemma_classic_row_1()
    ensures
        coupling_total(Scheme::Classic, 1, 1) == units(node_of(Scheme::Classic, 1)),
{
    reveal_with_fuel(coupling_total, 2);
    assert(coupling_total(Scheme::Classic, 1, 0) == 0);
    assert(coupling_of(Scheme::Classic, 1, 0) == frac(1, 2));
    lemma_units(1, 2, 4_959_068_400);
    assert(coupling_total(Scheme::Classic, 1, 1) == 4_959_068_400);
    assert(node_of(Scheme::Classic, 1) == frac(1, 2));
    lemma_units(1, 2, 4_959_068_400);
}

proof fn lemma_classic_row_2()
    ensures
        coupling_total(Scheme::Classic, 2, 2) == units(node_of(Scheme::Classic, 2)),
{
    reveal_with_fuel(coupling_total, 2);
    assert(coupling_total(Scheme::Classic, 2, 0) == 0);
    assert(coupling_of(Scheme::Classic, 2, 0) == frac(0, 1));
    lemma_units(0, 1, 9_918_136_800);
    assert(coupling_total(Scheme::Classic, 2, 1) == 0);
    assert(coupling_of(Scheme::Classic, 2, 1) == frac(1, 2));
    lemma_units(1, 2, 4_959_068_400);
    assert(coupling_total(Scheme::Classic, 2, 2) == 4_959_068_400);
    assert(node_of(Scheme::Classic, 2) == frac(1, 2));
    lemma_units(1, 2, 4_959_068_400);
}

proof fn lemma_classic_row_3()
    ensures
        coupling_total(Scheme::Classic, 3, 3) == units(node_of(Scheme::Classic, 3)),
{
    reveal_with_fuel(coupling_total, 2);
    assert(coupling_total(Scheme::Classic, 3, 0) == 0);
    assert(coupling_of(Scheme::Classic, 3, 0) == frac(0, 1));
    lemma_units(0, 1, 9_918_136_800);
    assert(coupling_total(Scheme::Classic, 3, 1) == 0);
    assert(coupling_of(Scheme::Classic, 3, 1) == frac(0, 1));
    lemma_units(0, 1, 9_918_136_800);
    assert(coupling_total(Scheme::Classic, 3, 2) == 0);
    assert(coupling_of(Scheme::Classic, 3, 2) == frac(1, 1));
    lemma_units(1, 1, 9_918_136_800);
    assert(coupling_total(Scheme::Classic, 3, 3) == 9_918_136_800);
    assert(node_of(Scheme::Classic, 3) == frac(1, 1));
    lemma_units(1, 1, 9_918_136_800);
}

proof fn lemma_classic_weights()
    ensures
        weight_total(Scheme::Classic, 4) == UNIT,
{
    reveal_with_fuel(weight_total, 2);
    assert(weight_total(Scheme::Classic, 0) == 0);
    assert(weight_of(Scheme::Classic, 0) == frac(1, 6));
    lemma_units(1, 6, 1_653_022_800);
    assert(weight_total(Scheme::Classic, 1) == 1_653_022_800);
    assert(weight_of(Scheme::Classic, 1) == frac(1, 3));
    lemma_units(1, 3, 3_306_045_600);
    assert(weight_total(Scheme::Classic, 2) == 4_959_068_400);
    assert(weight_of(Scheme::Classic, 2) == frac(1, 3));
    lemma_units(1, 3, 3_306_045_600);
    assert(weight_total(Scheme::Classic, 3) == 8_265_114_000);
    assert(weight_of(Scheme::Classic, 3) == frac(1, 6));
    lemma_units(1, 6, 1_653_022_800);
    assert(weight_total(Scheme::Classic, 4) == 9_918_136_800);
}

proof fn lemma_classic_companion()
    ensures
        companion_total(Scheme::Classic, 4) == UNIT,
{
    reveal_with_fuel(companion_total, 2);
    assert(companion_total(Scheme::Classic, 0) == 0);
    assert(companion_of(Scheme::Classic, 0) == frac(1, 6));
    lemma_units(1, 6, 1_653_022_800);
    assert(companion_total(Scheme::Classic, 1) == 1_653_022_800);
    assert(companion_of(Scheme::Classic, 1) == frac(1, 3));
    lemma_units(1, 3, 3_306_045_600);
    assert(companion_total(Scheme::Classic, 2) == 4_959_068_400);
    assert(companion_of(Scheme::Classic, 2) == frac(1, 3));
    lemma_units(1, 3, 3_306_045_600);
    assert(companion_total(Scheme::Classic, 3) == 8_265_114_000);
    assert(companion_of(Scheme::Classic, 3) == frac(1, 6));
    lemma_units(1, 6, 1_653_022_800);
    assert(companion_total(Scheme::Classic, 4) == 9_918_136_800);
}

proof fn lemma_euler_weights()
    ensures
        weight_total(Scheme::Euler, 1) == UNIT,
{
    reveal_with_fuel(weight_total, 2);
    assert(weight_total(Scheme::Euler, 0) == 0);
    assert(weight_of(Scheme::Euler, 0) == frac(1, 1));
    lemma_units(1, 1, 9_918_136_800);
    assert(weight_total(Scheme::Euler, 1) == 9_918_136_800);
}

proof fn lemma_euler_companion()
    ensures
        companion_total(Scheme::Euler, 1) == UNIT,
{
    reveal_with_fuel(companion_total, 2);
    assert(companion_total(Scheme::Euler, 0) == 0);
    assert(companion_of(Scheme::Euler, 0) == frac(1, 1));
    lemma_units(1, 1, 9_918_136_800);
    assert(companion_total(Scheme::Euler, 1) == 9_918_136_800);
}

proof fn lemma_fehlberg_row_1()
    ensures
        coupling_total(Scheme::Fehlberg, 1, 1) == units(node_of(Scheme::Fehlberg, 1)),
{
    reveal_with_fuel(coupling_total, 2);
    assert(coupling_total(Scheme::Fehlberg, 1, 0) == 0);
    assert(coupling_of(Scheme::Fehlberg, 1, 0) == frac(1, 4));
    lemma_units(1, 4, 2_479_534_200);
    assert(coupling_total(Scheme::Fehlberg, 1, 1) == 2_479_534_200);
    assert(node_of(Scheme::Fehlberg, 1) == frac(1, 4));
    lemma_units(1, 4, 2_479_534_200);
}

proof fn lemma_fehlberg_row_2()
    ensures
        coupling_total(Scheme::Fehlberg, 2, 2) == units(node_of(Scheme::Fehlberg, 2)),
{
    reveal_with_fuel(coupling_total, 2);
    assert(coupling_total(Scheme::Fehlberg, 2, 0) == 0);
    assert(coupling_of(Scheme::Fehlberg, 2, 0) == frac(3, 32));
    lemma_units(3, 32, 309_941_775);
    assert(coupling_total(Scheme::Fehlberg, 2, 1) == 929_825_325);
    assert(coupling_of(Scheme::Fehlberg, 2, 1) == frac(9, 32));
    lemma_units(9, 32, 309_941_775);
    assert(coupling_total(Scheme::Fehlberg, 2, 2) == 3_719_301_300);
    assert(node_of(Scheme::Fehlberg, 2) == frac(3, 8));
    lemma_units(3, 8, 1_239_767_100);
}

proof fn lemma_fehlberg_row_3()
    ensures
        coupling_total(Scheme::Fehlberg, 3, 3) == units(node_of(Scheme::Fehlberg, 3)),
{
    reveal_with_fuel(coupling_total, 2);
    assert(coupling_total(Scheme::Fehlberg, 3, 0) == 0);
    assert(coupling_of(Scheme::Fehlberg, 3, 0) == frac(1932, 2197));
    lemma_units(1932, 2197, 4_514_400);
    assert(coupling_total(Scheme::Fehlberg, 3, 1) == 8_721_820_800);
    assert(coupling_of(Scheme::Fehlberg, 3, 1) == frac(-7200, 2197));
    lemma_units(-7200, 2197, 4_514_400);
    assert(coupling_total(Scheme::Fehlberg, 3, 2) == -23_781_859_200);
    assert(coupling_of(Scheme::Fehlberg, 3, 2) == frac(7296, 2197));
    lemma_units(7296, 2197, 4_514_400);
    assert(coupling_total(Scheme::Fehlberg, 3, 3) == 9_155_203_200);
    assert(node_of(Scheme::Fehlberg, 3) == frac(12, 13));
    lemma_units(12, 13, 762_933_600);
}

proof fn lemma_fehlberg_row_4()
    ensures
        coupling_total(Scheme::Fehlberg, 4, 4) == units(node_of(Scheme::Fehlberg, 4)),
{
    reveal_with_fuel(coupling_total, 2);
    assert(coupling_total(Scheme::Fehlberg, 4, 0) == 0);
    assert(coupling_of(Scheme::Fehlberg, 4, 0) == frac(439, 216));
    lemma_units(439, 216, 45_917_300);
    assert(coupling_total(Scheme::Fehlberg, 4, 1) == 20_157_694_700);
    assert(coupling_of(Scheme::Fehlberg, 4, 1) == frac(-8, 1));
    lemma_units(-8, 1, 9_918_136_800);
    assert(coupling_total(Scheme::Fehlberg, 4, 2) == -59_187_399_700);
    assert(coupling_of(Scheme::Fehlberg, 4, 2) == frac(3680, 513));
    lemma_units(3680, 513, 19_333_600);
    assert(coupling_total(Scheme::Fehlberg, 4, 3) == 11_960_248_300);
    assert(coupling_of(Scheme::Fehlberg, 4, 3) == frac(-845, 4104));
    lemma_units(-845, 4104, 2_416_700);
    assert(coupling_total(Scheme::Fehlberg, 4, 4) == 9_918_136_800);
    assert(node_of(Scheme::Fehlberg, 4) == frac(1, 1));
    lemma_units(1, 1, 9_918_136_800);
}

proof fn lemma_fehlberg_row_5()
    ensures
        coupling_total(Scheme::Fehlberg, 5, 5) == units(node_of(Scheme::Fehlberg, 5)),
{
    reveal_with_fuel(coupling_total, 2);
    assert(coupling_total(Scheme::Fehlberg, 5, 0) == 0);
    assert(coupling_of(Scheme::Fehlberg, 5, 0) == frac(-8, 27));
    lemma_units(-8, 27, 367_338_400);
    assert(coupling_total(Scheme::Fehlberg, 5, 1) == -2_938_707_200);
    assert(coupling_of(Scheme::Fehlberg, 5, 1) == frac(2, 1));
    lemma_units(2, 1, 9_918_136_800);
    assert(coupling_total(Scheme::Fehlberg, 5, 2) == 16_897_566_400);
    assert(coupling_of(Scheme::Fehlberg, 5, 2) == frac(-3544, 2565));
    lemma_units(-3544, 2565, 3_866_720);
    assert(coupling_total(Scheme::Fehlberg, 5, 3) == 3_193_910_720);
    assert(coupling_of(Scheme::Fehlberg, 5, 3) == frac(1859, 4104));
    lemma_units(1859, 4104, 2_416_700);
    assert(coupling_total(Scheme::Fehlberg, 5, 4) == 7_686_556_020);
    assert(coupling_of(Scheme::Fehlberg, 5, 4) == frac(-11, 40));
    lemma_units(-11, 40, 247_953_420);
    assert(coupling_total(Scheme::Fehlberg, 5, 5) == 4_959_068_400);
    assert(node_of(Scheme::Fehlberg, 5) == frac(1, 2));
    lemma_units(1, 2, 4_959_068_400);
}

proof fn lemma_fehlberg_weights()
    ensures
        weight_total(Scheme::Fehlberg, 6) == UNIT,
{
    reveal_with_fuel(weight_total, 2);
    assert(weight_total(Scheme::Fehlberg, 0) == 0);
    assert(weight_of(Scheme::Fehlberg, 0) == frac(16, 135));
    lemma_units(16, 135, 73_467_680);
    assert(weight_total(Scheme::Fehlberg, 1) == 1_175_482_880);
    assert(weight_of(Scheme::Fehlberg, 1) == frac(0, 1));
    lemma_units(0, 1, 9_918_136_800);
    assert(weight_total(Scheme::Fehlberg, 2) == 1_175_482_880);
    assert(weight_of(Scheme::Fehlberg, 2) == frac(6656, 12825));
    lemma_units(6656, 12825, 773_344);
    assert(weight_total(Scheme::Fehlberg, 3) == 6_322_860_544);
    assert(weight_of(Scheme::Fehlberg, 3) == frac(28561, 56430));
    lemma_units(28561, 56430, 175_760);
    assert(weight_total(Scheme::Fehlberg, 4) == 11_342_741_904);
    assert(weight_of(Scheme::Fehlberg, 4) == frac(-9, 50));
    lemma_units(-9, 50, 198_362_736);
    assert(weight_total(Scheme::Fehlberg, 5) == 9_557_477_280);
    assert(weight_of(Scheme::Fehlberg, 5) == frac(2, 55));
    lemma_units(2, 55, 180_329_760);
    assert(weight_total(Scheme::Fehlberg, 6) == 9_918_136_800);
}

proof fn lemma_fehlberg_companion()
    ensures
        companion_total(Scheme::Fehlberg, 6) == UNIT,
{
    reveal_with_fuel(companion_total, 2);
    assert(companion_total(Scheme::Fehlberg, 0) == 0);
    assert(companion_of(Scheme::Fehlberg, 0) == frac(25, 216));
    lemma_units(25, 216, 45_917_300);
    assert(companion_total(Scheme::Fehlberg, 1) == 1_147_932_500);
    assert(companion_of(Scheme::Fehlberg, 1) == frac(0, 1));
    lemma_units(0, 1, 9_918_136_800);
    assert(companion_total(Scheme::Fehlberg, 2) == 1_147_932_500);
    assert(companion_of(Scheme::Fehlberg, 2) == frac(1408, 2565));
    lemma_units(1408, 2565, 3_866_720);
    assert(companion_total(Scheme::Fehlberg, 3) == 6_592_274_260);
    assert(companion_of(Scheme::Fehlberg, 3) == frac(2197, 4104));
    lemma_units(2197, 4104, 2_416_700);
    assert(companion_total(Scheme::Fehlberg, 4) == 11_901_764_160);
    assert(companion_of(Scheme::Fehlberg, 4) == frac(-1, 5));
    lemma_units(-1, 5, 1_983_627_360);
    assert(companion_total(Scheme::Fehlberg, 5) == 9_918_136_800);
    assert(companion_of(Scheme::Fehlberg, 5) == frac(0, 1));
    lemma_units(0, 1, 9_918_136_800);
    assert(companion_total(Scheme::Fehlberg, 6) == 9_918_136_800);
}

/// The weights of the predictor add up to one, and so do the corrector's.
pub proof fn lemma_multistep_weights_are_whole()
    ensures
        bashforth_total(4) == UNIT,
        moulton_total(4) == UNIT,
{
    reveal_with_fuel(bashforth_total, 2);
    assert(bashforth_total(0) == 0);
    assert(bashforth_of(0) == frac(55, 24));
    lemma_units(55, 24, 413_255_700);
    assert(bashforth_total(1) == 22_729_063_500);
    assert(bashforth_of(1) == frac(-59, 24));
    lemma_units(-59, 24, 413_255_700);
    assert(bashforth_total(2) == -1_653_022_800);
    assert(bashforth_of(2) == frac(37, 24));
    lemma_units(37, 24, 413_255_700);
    assert(bashforth_total(3) == 13_637_438_100);
    assert(bashforth_of(3) == frac(-9, 24));
    lemma_units(-9, 24, 413_255_700);
    assert(bashforth_total(4) == 9_918_136_800);
    reveal_with_fuel(moulton_total, 2);
    assert(moulton_total(0) == 0);
    assert(moulton_of(0) == frac(9, 24));
    lemma_units(9, 24, 413_255_700);
    assert(moulton_total(1) == 3_719_301_300);
    assert(moulton_of(1) == frac(19, 24));
    lemma_units(19, 24, 413_255_700);
    assert(moulton_total(2) == 11_571_159_600);
    assert(moulton_of(2) == frac(-5, 24));
    lemma_units(-5, 24, 413_255_700);
    assert(moulton_total(3) == 9_504_881_100);
    assert(moulton_of(3) == frac(1, 24));
    lemma_units(1, 24, 413_255_700);
    assert(moulton_total(4) == 9_918_136_800);
}

} // verus!
