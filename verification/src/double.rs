//! Numbers that come from a clock, a pointer or a slider, carried by the bits of
//! their IEEE 754 double. Comparing two of them is exact; sums and products of
//! them are left to whoever owns the clock.

use vstd::prelude::*;

verus! {

/// The weight of the sign bit.
pub const SIGN: u64 = 0x8000_0000_0000_0000;

/// The magnitude of infinity; a larger magnitude is not a number.
pub const INFINITE: u64 = 0x7ff0_0000_0000_0000;

/// A double, by its bits.
#[derive(Clone, Copy, PartialEq, Eq, Structural, Debug)]
pub struct Double {
    pub bits: u64,
}

impl Double {
    /// The bits without the sign, which grow with the absolute value.
    pub open spec fn magnitude(self) -> int {
        if self.bits >= SIGN {
            self.bits - SIGN
        } else {
            self.bits as int
        }
    }

    /// Whether this is not a number.
    pub open spec fn nan(self) -> bool {
        self.magnitude() > INFINITE
    }

    /// An integer that orders numbers as their values do; both zeros have 0.
    pub open spec fn order(self) -> int {
        if self.bits >= SIGN {
            -self.magnitude()
        } else {
            self.magnitude()
        }
    }

    /// An integer that orders all doubles, zeros and non-numbers told apart: the
    /// `totalOrder` predicate of IEEE 754.
    pub open spec fn total_order(self) -> int {
        if self.bits >= SIGN {
            -self.magnitude() - 1
        } else {
            self.magnitude()
        }
    }

    /// Whether this is less than `other`.
    pub open spec fn below(self, other: Double) -> bool {
        !self.nan() && !other.nan() && self.order() < other.order()
    }

    /// Whether this is at most `other`.
    pub open spec fn at_most(self, other: Double) -> bool {
        !self.nan() && !other.nan() && self.order() <= other.order()
    }

    /// Whether both are numbers and equal.
    pub open spec fn equals(self, other: Double) -> bool {
        !self.nan() && !other.nan() && self.order() == other.order()
    }

    /// The lesser of two numbers, this one when they are equal; a non-number
    /// gives way to the other.
    pub open spec fn lesser(self, other: Double) -> Double {
        if self.nan() {
            other
        } else if other.below(self) {
            other
        } else {
            self
        }
    }

    /// The greater of two numbers, this one when they are equal; a non-number
    /// gives way to the other.
    pub open spec fn greater(self, other: Double) -> Double {
        if self.nan() {
            other
        } else if self.below(other) {
            other
        } else {
            self
        }
    }

    /// This number moved into `low..=high`.
    pub open spec fn within(self, low: Double, high: Double) -> Double {
        if self.below(low) {
            low
        } else if high.below(self) {
            high
        } else {
            self
        }
    }

    /// Zero.
    pub fn zero() -> (r: Double)
        ensures
            r.bits == 0,
            r.order() == 0,
            !r.nan(),
    {
        Double { bits: 0 }
    }

    fn magnitude_of(self) -> (m: u64)
        ensures
            m == self.magnitude(),
    {
        if self.bits >= SIGN {
            self.bits - SIGN
        } else {
            self.bits
        }
    }

    /// Whether this is not a number.
    pub fn is_nan(self) -> (r: bool)
        ensures
            r == self.nan(),
    {
        self.magnitude_of() > INFINITE
    }

    /// Whether this is less than `other`.
    pub fn lt(self, other: Double) -> (r: bool)
        ensures
            r == self.below(other),
    {
        if self.is_nan() || other.is_nan() {
            return false;
        }
        let a: u64 = self.magnitude_of();
        let b: u64 = other.magnitude_of();
        if self.bits >= SIGN {
            if other.bits >= SIGN {
                b < a
            } else {
                a > 0 || b > 0
            }
        } else if other.bits >= SIGN {
            false
        } else {
            a < b
        }
    }

    /// Whether this is at most `other`.
    pub fn le(self, other: Double) -> (r: bool)
        ensures
            r == self.at_most(other),
    {
        !self.is_nan() && !other.is_nan() && !other.lt(self)
    }

    /// Whether both are numbers and equal.
    pub fn same(self, other: Double) -> (r: bool)
        ensures
            r == self.equals(other),
    {
        self.le(other) && other.le(self)
    }

    /// Whether this comes at or before `other` in the total order.
    pub fn total_le(self, other: Double) -> (r: bool)
        ensures
            r == (self.total_order() <= other.total_order()),
    {
        if self.bits >= SIGN {
            if other.bits >= SIGN {
                self.bits >= other.bits
            } else {
                true
            }
        } else if other.bits >= SIGN {
            false
        } else {
            self.bits <= other.bits
        }
    }

    /// The lesser of two numbers.
    pub fn min(self, other: Double) -> (r: Double)
        ensures
            r == self.lesser(other),
    {
        if self.is_nan() || other.lt(self) {
            other
        } else {
            self
        }
    }

    /// The greater of two numbers.
    pub fn max(self, other: Double) -> (r: Double)
        ensures
            r == self.greater(other),
    {
        if self.is_nan() || self.lt(other) {
            other
        } else {
            self
        }
    }

    /// This number moved into `low..=high`, two numbers in that order.
    pub fn clamp(self, low: Double, high: Double) -> (r: Double)
        requires
            low.at_most(high),
        ensures
            r == self.within(low, high),
    {
        if self.lt(low) {
            low
        } else if high.lt(self) {
            high
        } else {
            self
        }
    }
}

/// Every pair of numbers is ordered one way, the other, or equal.
pub proof fn law_numbers_are_ordered(a: Double, b: Double)
    requires
        !a.nan(),
        !b.nan(),
    ensures
        a.at_most(b) || b.at_most(a),
        a.at_most(b) && b.at_most(a) <==> a.equals(b),
        a.below(b) <==> !b.at_most(a),
{
}

/// A number moved into a range is in it, and one already there stays put.
pub proof fn law_within_is_inside(x: Double, low: Double, high: Double)
    requires
        !x.nan(),
        low.at_most(high),
    ensures
        low.at_most(x.within(low, high)),
        x.within(low, high).at_most(high),
        low.at_most(x) && x.at_most(high) ==> x.within(low, high) == x,
{
}

/// Numbers are ordered as IEEE 754 has them: those without the sign by their bits, those
/// with it the other way round and before all others, both zeros alike; what is not a
/// number comes neither before nor after anything.
pub proof fn law_numbers_are_ordered_by_their_bits(a: Double, b: Double)
    ensures
        ({
            let sign = 0x8000_0000_0000_0000u64;
            let top = 0x7ff0_0000_0000_0000u64;
            let bottom = 0xfff0_0000_0000_0000u64;
            let number = |x: Double| x.bits <= top || sign <= x.bits <= bottom;
            &&& !number(a) || !number(b) ==> !a.below(b) && !a.at_most(b) && !a.equals(b)
            &&& a.bits <= top && b.bits <= top ==> (a.below(b) <==> a.bits < b.bits)
            &&& sign <= a.bits <= bottom && sign <= b.bits <= bottom ==> (a.below(b) <==> a.bits
                > b.bits)
            &&& sign <= a.bits <= bottom && b.bits <= top ==> (a.below(b) <==> !(a.bits == sign
                && b.bits == 0)) && !b.below(a)
            &&& number(a) && number(b) ==> (a.at_most(b) <==> !b.below(a))
            &&& number(a) && number(b) ==> (a.equals(b) <==> !a.below(b) && !b.below(a))
            &&& a.nan() <==> !number(a)
        }),
{
}

/// The lesser and the greater of two are those two, the lesser first, and what is not a
/// number gives way to the other.
pub proof fn law_lesser_and_greater_are_the_two(a: Double, b: Double)
    ensures
        !a.nan() && !b.nan() ==> {
            &&& a.lesser(b).at_most(a.greater(b))
            &&& (a.lesser(b) == a && a.greater(b) == b) || (a.lesser(b) == b && a.greater(b) == a)
                || (a.equals(b) && a.lesser(b) == a && a.greater(b) == a)
        },
        a.nan() ==> a.lesser(b) == b && a.greater(b) == b,
        !a.nan() && b.nan() ==> a.lesser(b) == a && a.greater(b) == a,
{
}

/// All doubles are ordered one way or the other by the total order, which agrees with
/// the order of numbers and tells all of them apart.
pub proof fn law_total_order_tells_all_apart(a: Double, b: Double)
    ensures
        a.total_order() == b.total_order() <==> a == b,
        a.below(b) ==> a.total_order() < b.total_order(),
        (Double { bits: 0x8000_0000_0000_0000 }).total_order() < (Double { bits: 0 }).total_order(),
        a.bits > 0x7ff0_0000_0000_0000 && a.bits < 0x8000_0000_0000_0000 && b.bits
            <= 0x7ff0_0000_0000_0000 ==> b.total_order() < a.total_order(),
{
}

/// A number outside a range moves to the nearer end of it.
pub proof fn law_outside_moves_to_the_end(x: Double, low: Double, high: Double)
    requires
        low.at_most(high),
    ensures
        x.below(low) ==> x.within(low, high) == low,
        high.below(x) ==> x.within(low, high) == high,
        x.nan() ==> x.within(low, high) == x,
{
}

} // verus!
