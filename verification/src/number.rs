//! Integers wide enough for every representation type.

use vstd::prelude::*;

verus! {

/// An integer between `-2^128` and `2^128 - 1`, which covers the range of
/// every primitive integer type, signed or unsigned.
///
/// A non-negative number stores its value; a negative number stores its
/// distance below `-1`.  Every integer in range has exactly one
/// representation, so two numbers are the same value exactly when their
/// fields agree.
#[derive(Clone, Copy, Debug, PartialEq, Eq, Hash)]
pub struct Number {
    negative: bool,
    offset: u128,
}

impl View for Number {
    type V = int;

    closed spec fn view(&self) -> int {
        if self.negative {
            -(self.offset as int) - 1
        } else {
            self.offset as int
        }
    }
}

impl DeepView for Number {
    type V = int;

    open spec fn deep_view(&self) -> int {
        self@
    }
}

impl Number {
    /// The smallest integer a `Number` can hold.
    pub open spec fn lowest() -> int {
        -0x1_0000_0000_0000_0000_0000_0000_0000_0000
    }

    /// The largest integer a `Number` can hold.
    pub open spec fn highest() -> int {
        0xffff_ffff_ffff_ffff_ffff_ffff_ffff_ffff
    }

    /// Every number lies between `lowest()` and `highest()`.
    pub proof fn lemma_in_range(self)
        ensures
            Self::lowest() <= self@ <= Self::highest(),
    {
    }

    /// Two numbers with the same value are the same number.
    pub proof fn lemma_view_injective(a: Number, b: Number)
        ensures
            a@ == b@ <==> a == b,
    {
    }

    /// The number zero.
    pub fn zero() -> (n: Number)
        ensures
            n@ == 0,
    {
        Number { negative: false, offset: 0 }
    }

    /// The number with the given sign and magnitude: `magnitude` itself, or
    /// its negation if `negative` is set.
    pub fn new(negative: bool, magnitude: u128) -> (n: Number)
        ensures
            n@ == if negative { -(magnitude as int) } else { magnitude as int },
    {
        if negative && magnitude > 0 {
            Number { negative: true, offset: magnitude - 1 }
        } else {
            Number { negative: false, offset: magnitude }
        }
    }

    /// The number with the value of `v`.
    pub fn from_i128(v: i128) -> (n: Number)
        ensures
            n@ == v,
    {
        if v < 0 {
            Number { negative: true, offset: (-(v + 1)) as u128 }
        } else {
            Number { negative: false, offset: v as u128 }
        }
    }

    /// The number with the value of `v`.
    pub fn from_u128(v: u128) -> (n: Number)
        ensures
            n@ == v,
    {
        Number { negative: false, offset: v }
    }

    /// The value as an `i128`, if it fits.
    pub fn to_i128(&self) -> (r: Option<i128>)
        ensures
            i128::MIN <= self@ <= i128::MAX ==> r == Some(self@ as i128),
            !(i128::MIN <= self@ <= i128::MAX) ==> r.is_none(),
    {
        if self.offset > i128::MAX as u128 {
            None
        } else if self.negative {
            Some(-(self.offset as i128) - 1)
        } else {
            Some(self.offset as i128)
        }
    }

    /// The value as a `u128`, if it is not negative.
    pub fn to_u128(&self) -> (r: Option<u128>)
        ensures
            0 <= self@ ==> r == Some(self@ as u128),
            self@ < 0 ==> r.is_none(),
    {
        if self.negative {
            None
        } else {
            Some(self.offset)
        }
    }

    /// Whether both numbers have the same value.
    pub fn equals(&self, other: &Number) -> (r: bool)
        ensures
            r == (self@ == other@),
    {
        self.negative == other.negative && self.offset == other.offset
    }

    /// Whether this value is less than or equal to `other`.
    pub fn at_most(&self, other: &Number) -> (r: bool)
        ensures
            r == (self@ <= other@),
    {
        if self.negative {
            if other.negative {
                self.offset >= other.offset
            } else {
                true
            }
        } else {
            if other.negative {
                false
            } else {
                self.offset <= other.offset
            }
        }
    }

    /// The next integer up, unless that would pass `limit`.
    pub fn next_up_to(&self, limit: &Number) -> (r: Option<Number>)
        ensures
            self@ + 1 <= limit@ ==> r.is_some() && r.unwrap()@ == self@ + 1,
            self@ + 1 > limit@ ==> r.is_none(),
    {
        if !self.at_most(limit) || self.equals(limit) {
            None
        } else if self.negative {
            if self.offset == 0 {
                Some(Number { negative: false, offset: 0 })
            } else {
                Some(Number { negative: true, offset: self.offset - 1 })
            }
        } else {
            proof {
                limit.lemma_in_range();
            }
            Some(Number { negative: false, offset: self.offset + 1 })
        }
    }
}

} // verus!
