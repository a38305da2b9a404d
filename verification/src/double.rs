//! Double-precision numbers, held and compared by their bit patterns.
//!
//! The bit layout is that of IEEE 754 binary64: one sign bit, eleven exponent
//! bits, fifty-two fraction bits.  Read as a sign and a magnitude, the bit
//! patterns of all numbers that are not NaN are ordered exactly as the
//! numbers themselves, with the two zeros in one place.

use vstd::prelude::*;

verus! {

/// The sign bit of a double.
pub const SIGN_BIT: u64 = 0x8000_0000_0000_0000;

/// The magnitude of positive and negative infinity; every larger magnitude
/// is a NaN.
pub const INFINITY_BITS: u64 = 0x7ff0_0000_0000_0000;

/// A double-precision number, given by its bit pattern.
#[derive(Debug, Clone, Copy)]
pub struct Double {
    pub bits: u64,
}

impl Double {
    /// The bit pattern without its sign bit.
    pub open spec fn magnitude(self) -> int {
        if self.bits >= SIGN_BIT {
            self.bits - SIGN_BIT
        } else {
            self.bits as int
        }
    }

    /// Whether the sign bit is set.
    pub open spec fn is_negative(self) -> bool {
        self.bits >= SIGN_BIT
    }

    /// Whether the pattern is a NaN.
    pub open spec fn is_nan(self) -> bool {
        self.magnitude() > INFINITY_BITS
    }

    /// The place of the number on the line of all doubles: positive for
    /// positive numbers, negative for negative ones, zero for both zeros.
    /// It is meaningful for every pattern that is not a NaN.
    pub open spec fn rank(self) -> int {
        if self.is_negative() {
            -self.magnitude()
        } else {
            self.magnitude()
        }
    }

    /// `self == other` as numbers: false where either is a NaN.
    pub open spec fn same(self, other: Double) -> bool {
        !self.is_nan() && !other.is_nan() && self.rank() == other.rank()
    }

    /// `self < other` as numbers: false where either is a NaN.
    pub open spec fn below(self, other: Double) -> bool {
        !self.is_nan() && !other.is_nan() && self.rank() < other.rank()
    }

    /// `self > other` as numbers: false where either is a NaN.
    pub open spec fn above(self, other: Double) -> bool {
        other.below(self)
    }

    /// `self <= other` as numbers: false where either is a NaN.
    pub open spec fn at_most(self, other: Double) -> bool {
        !self.is_nan() && !other.is_nan() && self.rank() <= other.rank()
    }

    /// `self >= other` as numbers: false where either is a NaN.
    pub open spec fn at_least(self, other: Double) -> bool {
        other.at_most(self)
    }

    /// The double with the given bit pattern.
    pub fn from_bits(bits: u64) -> (r: Double)
        ensures
            r.bits == bits,
    {
        Double { bits }
    }

    /// The bit pattern.
    pub fn to_bits(&self) -> (r: u64)
        ensures
            r == self.bits,
    {
        self.bits
    }

    /// Whether the number is a NaN.
    pub fn nan(&self) -> (r: bool)
        ensures
            r == self.is_nan(),
    {
        if self.bits >= SIGN_BIT {
            self.bits - SIGN_BIT > INFINITY_BITS
        } else {
            self.bits > INFINITY_BITS
        }
    }

    /// The rank as a machine integer.
    fn signed_rank(&self) -> (r: i128)
        ensures
            r == self.rank(),
    {
        if self.bits >= SIGN_BIT {
            let magnitude: u64 = self.bits - SIGN_BIT;
            -(magnitude as i128)
        } else {
            self.bits as i128
        }
    }

    /// `self == other`, as the hardware compares doubles.
    pub fn equals(&self, other: &Double) -> (r: bool)
        ensures
            r == self.same(*other),
    {
        !self.nan() && !other.nan() && self.signed_rank() == other.signed_rank()
    }

    /// `self < other`, as the hardware compares doubles.
    pub fn lt(&self, other: &Double) -> (r: bool)
        ensures
            r == self.below(*other),
    {
        !self.nan() && !other.nan() && self.signed_rank() < other.signed_rank()
    }

    /// `self > other`, as the hardware compares doubles.
    pub fn gt(&self, other: &Double) -> (r: bool)
        ensures
            r == self.above(*other),
    {
        other.lt(self)
    }

    /// `self <= other`, as the hardware compares doubles.
    pub fn le(&self, other: &Double) -> (r: bool)
        ensures
            r == self.at_most(*other),
    {
        !self.nan() && !other.nan() && self.signed_rank() <= other.signed_rank()
    }

    /// `self >= other`, as the hardware compares doubles.
    pub fn ge(&self, other: &Double) -> (r: bool)
        ensures
            r == self.at_least(*other),
    {
        other.le(self)
    }
}

impl PartialEq for Double {
    fn eq(&self, other: &Double) -> (r: bool) {
        self.equals(other)
    }
}

impl vstd::std_specs::cmp::PartialEqSpecImpl for Double {
    open spec fn obeys_eq_spec() -> bool {
        true
    }

    open spec fn eq_spec(&self, other: &Double) -> bool {
        self.same(*other)
    }
}

/// Of two numbers neither of which is a NaN, exactly one of "less", "equal"
/// and "greater" holds; where either is a NaN, none does.
pub proof fn law_trichotomy(x: Double, n: Double)
    ensures
        !(x.below(n) && x.same(n)),
        !(x.below(n) && x.above(n)),
        !(x.same(n) && x.above(n)),
        (x.below(n) || x.same(n) || x.above(n)) <==> (!x.is_nan() && !n.is_nan()),
{
}

/// "At least" is "greater or equal", and "at most" is "less or equal".
pub proof fn law_weak_orders(x: Double, n: Double)
    ensures
        x.at_least(n) <==> (x.above(n) || x.same(n)),
        x.at_most(n) <==> (x.below(n) || x.same(n)),
{
}

/// The four comparisons move together: as a number grows past a threshold,
/// "greater" and "at least" can only turn true, "less" and "at most" only
/// false.
pub proof fn law_monotone(x: Double, y: Double, n: Double)
    requires
        x.at_most(y),
    ensures
        x.above(n) ==> y.above(n),
        x.at_least(n) ==> y.at_least(n),
        y.below(n) ==> x.below(n),
        y.at_most(n) ==> x.at_most(n),
{
}

} // verus!
