//! Binary64 floating-point values held by their bit patterns.
//!
//! The simulation's quantities are IEEE 754 double-precision numbers. This
//! module carries such a number as the 64 bits that encode it and decides,
//! on those bits alone, everything that needs no rounding: classification,
//! sign, ordering, and the whole part of a value. Sums, products and the
//! like are left to the caller's hardware.

use vstd::prelude::*;

verus! {

/// The sign bit of a binary64 pattern.
pub const SIGN_BIT: u64 = 0x8000_0000_0000_0000;

/// The pattern of positive infinity: exponent field all ones, fraction zero.
pub const INFINITY_BITS: u64 = 0x7FF0_0000_0000_0000;

/// Two to the 52nd: the number of patterns that share one exponent field.
pub const FRACTION_SPAN: u64 = 0x0010_0000_0000_0000;

/// The exponent field of a value whose unit in the last place is one.
pub const UNIT_EXPONENT: u64 = 1075;

/// The smallest exponent field of a value of magnitude two to the 31st or more.
pub const WIDE_EXPONENT: u64 = 1054;

/// Two to the power `n`.
pub open spec fn two_to(n: nat) -> int
    decreases n,
{
    if n == 0 {
        1
    } else {
        2 * two_to((n - 1) as nat)
    }
}

/// A binary64 value, carried as the 64 bits that encode it.
///
/// The derived `==` compares encodings; [`Scalar::same`] compares values.
#[derive(Clone, Copy, Debug, PartialEq, Eq, Structural)]
pub struct Scalar {
    pub bits: u64,
}

impl Scalar {
    /// The encoding with the sign bit cleared.
    pub open spec fn magnitude(self) -> u64 {
        if self.bits >= SIGN_BIT {
            (self.bits - SIGN_BIT) as u64
        } else {
            self.bits
        }
    }

    /// The sign bit is set. This holds of negative zero and of half the NaNs too.
    pub open spec fn sign(self) -> bool {
        self.bits >= SIGN_BIT
    }

    pub open spec fn spec_is_nan(self) -> bool {
        self.magnitude() > INFINITY_BITS
    }

    pub open spec fn spec_is_infinite(self) -> bool {
        self.magnitude() == INFINITY_BITS
    }

    pub open spec fn spec_is_finite(self) -> bool {
        self.magnitude() < INFINITY_BITS
    }

    /// The place of a value that is no NaN on the number line: two such
    /// values compare as their ranks do. Both zeros have rank zero.
    pub open spec fn rank(self) -> int {
        if self.sign() {
            -(self.magnitude() as int)
        } else {
            self.magnitude() as int
        }
    }

    pub open spec fn spec_lt(self, other: Scalar) -> bool {
        !self.spec_is_nan() && !other.spec_is_nan() && self.rank() < other.rank()
    }

    pub open spec fn spec_le(self, other: Scalar) -> bool {
        !self.spec_is_nan() && !other.spec_is_nan() && self.rank() <= other.rank()
    }

    pub open spec fn spec_gt(self, other: Scalar) -> bool {
        other.spec_lt(self)
    }

    pub open spec fn spec_ge(self, other: Scalar) -> bool {
        other.spec_le(self)
    }

    pub open spec fn spec_same(self, other: Scalar) -> bool {
        !self.spec_is_nan() && !other.spec_is_nan() && self.rank() == other.rank()
    }

    /// The biased exponent, 0 to 2047.
    pub open spec fn exponent_field(self) -> int {
        self.magnitude() as int / FRACTION_SPAN as int
    }

    /// The integer that the value's magnitude is a power-of-two multiple of.
    pub open spec fn significand(self) -> int {
        if self.exponent_field() == 0 {
            self.magnitude() as int % FRACTION_SPAN as int
        } else {
            FRACTION_SPAN as int + self.magnitude() as int % FRACTION_SPAN as int
        }
    }

    /// How many binary places of the significand lie behind the point, for a
    /// magnitude below two to the 31st.
    pub open spec fn places(self) -> nat {
        if self.exponent_field() == 0 {
            1074
        } else {
            (UNIT_EXPONENT as int - self.exponent_field()) as nat
        }
    }

    /// The largest integer not above the value, held to the range of `i32`;
    /// zero for a NaN.
    pub open spec fn floor(self) -> int {
        if self.spec_is_nan() {
            0
        } else if self.exponent_field() >= WIDE_EXPONENT as int {
            if self.sign() {
                i32::MIN as int
            } else {
                i32::MAX as int
            }
        } else {
            let whole = self.significand() / two_to(self.places());
            let rest = self.significand() % two_to(self.places());
            if !self.sign() {
                whole
            } else if rest == 0 {
                -whole
            } else {
                -whole - 1
            }
        }
    }

    /// The scalar with the given encoding.
    pub fn from_bits(bits: u64) -> (r: Scalar)
        ensures
            r.bits == bits,
    {
        Scalar { bits }
    }

    /// The encoding.
    pub fn to_bits(self) -> (r: u64)
        ensures
            r == self.bits,
    {
        self.bits
    }

    /// Positive zero.
    pub fn zero() -> (r: Scalar)
        ensures
            r.bits == 0,
    {
        Scalar { bits: 0 }
    }

    /// One.
    pub fn one() -> (r: Scalar)
        ensures
            r.bits == 0x3FF0_0000_0000_0000,
    {
        Scalar { bits: 0x3FF0_0000_0000_0000 }
    }

    fn magnitude_bits(self) -> (m: u64)
        ensures
            m == self.magnitude(),
    {
        if self.bits >= SIGN_BIT {
            self.bits - SIGN_BIT
        } else {
            self.bits
        }
    }

    /// The value is a NaN.
    #[verifier::when_used_as_spec(spec_is_nan)]
    pub fn is_nan(self) -> (r: bool)
        ensures
            r == self.spec_is_nan(),
    {
        self.magnitude_bits() > INFINITY_BITS
    }

    /// The value is positive or negative infinity.
    #[verifier::when_used_as_spec(spec_is_infinite)]
    pub fn is_infinite(self) -> (r: bool)
        ensures
            r == self.spec_is_infinite(),
    {
        self.magnitude_bits() == INFINITY_BITS
    }

    /// The value is neither infinite nor a NaN.
    #[verifier::when_used_as_spec(spec_is_finite)]
    pub fn is_finite(self) -> (r: bool)
        ensures
            r == self.spec_is_finite(),
    {
        self.magnitude_bits() < INFINITY_BITS
    }

    /// `self < other` as binary64 values: false whenever either is a NaN.
    #[verifier::when_used_as_spec(spec_lt)]
    pub fn lt(self, other: Scalar) -> (r: bool)
        ensures
            r == self.spec_lt(other),
    {
        if self.is_nan() || other.is_nan() {
            return false;
        }
        let a: u64 = self.magnitude_bits();
        let b: u64 = other.magnitude_bits();
        if self.bits >= SIGN_BIT {
            if other.bits >= SIGN_BIT {
                b < a
            } else {
                a > 0 || b > 0
            }
        } else {
            if other.bits >= SIGN_BIT {
                false
            } else {
                a < b
            }
        }
    }

    /// `self == other` as binary64 values: the zeros are the same, a NaN is
    /// the same as nothing.
    #[verifier::when_used_as_spec(spec_same)]
    pub fn same(self, other: Scalar) -> (r: bool)
        ensures
            r == self.spec_same(other),
    {
        if self.is_nan() || other.is_nan() {
            return false;
        }
        let a: u64 = self.magnitude_bits();
        let b: u64 = other.magnitude_bits();
        self.bits == other.bits || (a == 0 && b == 0)
    }

    /// `self <= other` as binary64 values.
    #[verifier::when_used_as_spec(spec_le)]
    pub fn le(self, other: Scalar) -> (r: bool)
        ensures
            r == self.spec_le(other),
    {
        self.lt(other) || self.same(other)
    }

    /// `self > other` as binary64 values.
    #[verifier::when_used_as_spec(spec_gt)]
    pub fn gt(self, other: Scalar) -> (r: bool)
        ensures
            r == self.spec_gt(other),
    {
        other.lt(self)
    }

    /// `self >= other` as binary64 values.
    #[verifier::when_used_as_spec(spec_ge)]
    pub fn ge(self, other: Scalar) -> (r: bool)
        ensures
            r == self.spec_ge(other),
    {
        other.le(self)
    }

    /// The absolute value: the same encoding with the sign cleared.
    pub fn abs(self) -> (r: Scalar)
        ensures
            r.bits == self.magnitude(),
    {
        Scalar { bits: self.magnitude_bits() }
    }

    /// The negated value: the same encoding with the sign flipped.
    pub fn neg(self) -> (r: Scalar)
        ensures
            r.magnitude() == self.magnitude(),
            r.sign() == !self.sign(),
    {
        if self.bits >= SIGN_BIT {
            Scalar { bits: self.bits - SIGN_BIT }
        } else {
            Scalar { bits: self.bits + SIGN_BIT }
        }
    }

    /// The largest integer not above the value, held to the range of `i32`;
    /// zero for a NaN.
    pub fn floor_i32(self) -> (r: i32)
        ensures
            r == self.floor(),
    {
        let m: u64 = self.magnitude_bits();
        if m > INFINITY_BITS {
            return 0;
        }
        let negative: bool = self.bits >= SIGN_BIT;
        let field: u64 = m / FRACTION_SPAN;
        if field >= WIDE_EXPONENT {
            return if negative {
                i32::MIN
            } else {
                i32::MAX
            };
        }
        let fraction: u64 = m % FRACTION_SPAN;
        let significand: u64 = if field == 0 {
            fraction
        } else {
            FRACTION_SPAN + fraction
        };
        let places: u64 = if field == 0 {
            1074
        } else {
            UNIT_EXPONENT - field
        };
        assert(22 <= places <= 1074);
        let mut whole: u64 = significand;
        let mut exact: bool = true;
        let mut done: u64 = 0;
        while done < places
            invariant
                done <= places,
                whole as int == significand as int / two_to(done as nat),
                exact == (significand as int % two_to(done as nat) == 0),
                significand < 2 * FRACTION_SPAN,
            decreases places - done,
        {
            proof {
                lemma_halving(significand as int, done as nat);
            }
            if whole % 2 != 0 {
                exact = false;
            }
            whole = whole / 2;
            done = done + 1;
        }
        proof {
            lemma_two_to_22();
            lemma_two_to_monotone(22, places as nat);
            lemma_quotient_below(significand as int, two_to(places as nat));
        }
        let w: i32 = whole as i32;
        if !negative {
            w
        } else if exact {
            -w
        } else {
            -w - 1
        }
    }
}

/// Of two values of which neither is a NaN, the first is below the second,
/// the same, or above it, and only one of the three.
pub proof fn lemma_order_total(a: Scalar, b: Scalar)
    requires
        !a.spec_is_nan(),
        !b.spec_is_nan(),
    ensures
        a.spec_lt(b) || a.spec_same(b) || a.spec_gt(b),
        !(a.spec_lt(b) && a.spec_same(b)),
        !(a.spec_lt(b) && a.spec_gt(b)),
        !(a.spec_same(b) && a.spec_gt(b)),
        a.spec_le(b) == (a.spec_lt(b) || a.spec_same(b)),
{
}

/// A NaN is neither below, nor the same as, nor above anything.
pub proof fn lemma_nan_unordered(a: Scalar, b: Scalar)
    requires
        a.spec_is_nan() || b.spec_is_nan(),
    ensures
        !a.spec_lt(b),
        !a.spec_le(b),
        !a.spec_same(b),
        !a.spec_ge(b),
        !a.spec_gt(b),
{
}

/// What is not above a second value that is not above a third is not above
/// the third.
pub proof fn lemma_order_transitive(a: Scalar, b: Scalar, c: Scalar)
    requires
        a.spec_le(b),
        b.spec_le(c),
    ensures
        a.spec_le(c),
        a.spec_lt(b) || b.spec_lt(c) ==> a.spec_lt(c),
{
}

/// The two zeros are the same value, and values that are the same and not
/// zero have one encoding.
pub proof fn lemma_same_encoding(a: Scalar, b: Scalar)
    requires
        a.spec_same(b),
    ensures
        a.bits == b.bits || (a.magnitude() == 0 && b.magnitude() == 0),
{
}

/// Halving once more: how quotient and remainder by `two_to(n + 1)` come
/// from those by `two_to(n)`.
proof fn lemma_halving(x: int, n: nat)
    requires
        0 <= x,
    ensures
        two_to(n) > 0,
        x / two_to(n + 1) == (x / two_to(n)) / 2,
        (x % two_to(n + 1) == 0) == (x % two_to(n) == 0 && (x / two_to(n)) % 2 == 0),
{
    lemma_two_to_positive(n);
    let d = two_to(n);
    let q = x / d;
    let r = x % d;
    assert(two_to(n + 1) == 2 * d);
    assert(x == d * q + r && 0 <= r < d) by (nonlinear_arith)
        requires
            d > 0,
            q == x / d,
            r == x % d,
    ;
    let h = q / 2;
    let b = q % 2;
    assert(x == (2 * d) * h + (d * b + r)) by (nonlinear_arith)
        requires
            x == d * q + r,
            q == 2 * h + b,
    ;
    assert(0 <= d * b + r < 2 * d) by (nonlinear_arith)
        requires
            0 <= r < d,
            0 <= b < 2,
            d > 0,
    ;
    lemma_division_unique(x, 2 * d, h, d * b + r);
    if b == 0 {
        assert(d * b + r == r) by (nonlinear_arith)
            requires
                b == 0,
        ;
    } else {
        assert(d * b + r >= d) by (nonlinear_arith)
            requires
                b == 1,
                r >= 0,
        ;
    }
}

/// Quotient and remainder are the only pair that fits.
proof fn lemma_division_unique(x: int, d: int, q: int, r: int)
    requires
        d > 0,
        x == d * q + r,
        0 <= r < d,
    ensures
        x / d == q,
        x % d == r,
{
    let q0 = x / d;
    let r0 = x % d;
    assert(x == d * q0 + r0 && 0 <= r0 < d) by (nonlinear_arith)
        requires
            d > 0,
            q0 == x / d,
            r0 == x % d,
    ;
    assert(q0 == q) by (nonlinear_arith)
        requires
            d > 0,
            d * q0 + r0 == d * q + r,
            0 <= r0 < d,
            0 <= r < d,
    ;
    assert(r0 == r) by (nonlinear_arith)
        requires
            q0 == q,
            d * q0 + r0 == d * q + r,
    ;
}

/// A power of two is above zero.
proof fn lemma_two_to_positive(n: nat)
    ensures
        two_to(n) > 0,
    decreases n,
{
    if n > 0 {
        lemma_two_to_positive((n - 1) as nat);
    }
}

/// The powers of two rise.
proof fn lemma_two_to_monotone(m: nat, n: nat)
    requires
        m <= n,
    ensures
        two_to(m) <= two_to(n),
    decreases n,
{
    lemma_two_to_positive(m);
    if m < n {
        lemma_two_to_monotone(m, (n - 1) as nat);
    }
}

/// Two to the 22nd.
proof fn lemma_two_to_22()
    ensures
        two_to(22) == 0x40_0000,
{
    reveal_with_fuel(two_to, 23);
}

/// A significand divided by at least two to the 22nd stays below two to the 31st.
proof fn lemma_quotient_below(x: int, d: int)
    requires
        0 <= x < 0x20_0000_0000_0000,
        d >= 0x40_0000,
    ensures
        0 <= x / d < 0x8000_0000,
{
    let q = x / d;
    let r = x % d;
    assert(x == d * q + r && 0 <= r < d) by (nonlinear_arith)
        requires
            d > 0,
            q == x / d,
            r == x % d,
    ;
    assert(0 <= q < 0x8000_0000) by (nonlinear_arith)
        requires
            x == d * q + r,
            0 <= r < d,
            0 <= x < 0x20_0000_0000_0000,
            d >= 0x40_0000,
    ;
}

} // verus!
