//! Single-precision numbers, held as their bits.
//!
//! The library stores, compares, clamps and mirrors such numbers; it never
//! adds or multiplies them. All of that can be read off the IEEE 754 binary32
//! encoding: a sign bit above thirty-one bits of magnitude, where a larger
//! magnitude is a larger absolute value and every magnitude above that of
//! infinity is "not a number".

use vstd::prelude::*;

verus! {

/// The weight of the sign bit.
pub const SIGN: u32 = 0x8000_0000;

/// The magnitude of infinity; anything above it is not a number.
pub const INFINITE: u32 = 0x7f80_0000;

/// An IEEE 754 binary32 value.
#[derive(Debug, Clone, Copy, PartialEq, Eq, Structural)]
pub struct Single {
    pub bits: u32,
}

impl Single {
    /// The bits below the sign.
    pub open spec fn magnitude(self) -> int {
        if self.bits >= SIGN {
            self.bits - SIGN
        } else {
            self.bits as int
        }
    }

    pub open spec fn nan(self) -> bool {
        self.magnitude() > INFINITE
    }

    /// Where the number stands in numeric order; both zeros stand at 0.
    pub open spec fn rank(self) -> int {
        if self.bits >= SIGN {
            -self.magnitude()
        } else {
            self.magnitude()
        }
    }

    /// `self < other`.
    pub open spec fn lt(self, other: Single) -> bool {
        !self.nan() && !other.nan() && self.rank() < other.rank()
    }

    /// `self <= other`.
    pub open spec fn le(self, other: Single) -> bool {
        !self.nan() && !other.nan() && self.rank() <= other.rank()
    }

    /// `self == other`: the zeros are equal, and nothing equals a NaN.
    pub open spec fn alike(self, other: Single) -> bool {
        !self.nan() && !other.nan() && self.rank() == other.rank()
    }

    /// `lo` below the range, `hi` above it, the number itself within it or
    /// when it is not a number.
    pub open spec fn clamped(self, lo: Single, hi: Single) -> Single {
        if self.lt(lo) {
            lo
        } else if hi.lt(self) {
            hi
        } else {
            self
        }
    }

    /// The number with its sign turned round.
    pub open spec fn negated(self) -> Single {
        if self.bits >= SIGN {
            Single { bits: (self.bits - SIGN) as u32 }
        } else {
            Single { bits: (self.bits + SIGN) as u32 }
        }
    }

    /// The number without its sign.
    pub open spec fn unsigned(self) -> Single {
        Single { bits: self.magnitude() as u32 }
    }

    pub fn is_nan(self) -> (r: bool)
        ensures
            r == self.nan(),
    {
        if self.bits >= SIGN {
            self.bits - SIGN > INFINITE
        } else {
            self.bits > INFINITE
        }
    }

    fn order(self) -> (r: i64)
        ensures
            r == self.rank(),
    {
        if self.bits >= SIGN {
            0 - ((self.bits - SIGN) as i64)
        } else {
            self.bits as i64
        }
    }

    pub fn is_below(self, other: Single) -> (r: bool)
        ensures
            r == self.lt(other),
    {
        !self.is_nan() && !other.is_nan() && self.order() < other.order()
    }

    pub fn is_at_most(self, other: Single) -> (r: bool)
        ensures
            r == self.le(other),
    {
        !self.is_nan() && !other.is_nan() && self.order() <= other.order()
    }

    pub fn is_alike(self, other: Single) -> (r: bool)
        ensures
            r == self.alike(other),
    {
        !self.is_nan() && !other.is_nan() && self.order() == other.order()
    }

    /// Brings the number into `lo..=hi`. A range that is empty or has a bound
    /// that is not a number cannot be clamped to.
    pub fn clamp(self, lo: Single, hi: Single) -> (r: Single)
        requires
            lo.le(hi),
        ensures
            r == self.clamped(lo, hi),
    {
        if self.is_below(lo) {
            lo
        } else if hi.is_below(self) {
            hi
        } else {
            self
        }
    }

    pub fn negate(self) -> (r: Single)
        ensures
            r == self.negated(),
    {
        if self.bits >= SIGN {
            Single { bits: self.bits - SIGN }
        } else {
            Single { bits: self.bits + SIGN }
        }
    }

    pub fn abs(self) -> (r: Single)
        ensures
            r == self.unsigned(),
    {
        if self.bits >= SIGN {
            Single { bits: self.bits - SIGN }
        } else {
            self
        }
    }
}

/// Clamping leaves the number inside the range, unless it was not a number.
pub proof fn law_clamp_in_range(v: Single, lo: Single, hi: Single)
    requires
        lo.le(hi),
    ensures
        v.nan() ==> v.clamped(lo, hi) == v,
        !v.nan() ==> lo.le(v.clamped(lo, hi)) && v.clamped(lo, hi).le(hi),
{
}

/// Clamping twice to one range is clamping once.
pub proof fn law_clamp_idempotent(v: Single, lo: Single, hi: Single)
    requires
        lo.le(hi),
    ensures
        v.clamped(lo, hi).clamped(lo, hi) == v.clamped(lo, hi),
{
}

/// Turning the sign round twice gives the number back, and reverses order.
pub proof fn law_negate(a: Single, b: Single)
    ensures
        a.negated().negated() == a,
        a.lt(b) == b.negated().lt(a.negated()),
{
}

/// Numbers are in order: of two that are numbers one is less, or they are
/// alike. Anything that is not a number compares with nothing, not even with
/// itself. At most means less or alike.
pub proof fn law_order(a: Single, b: Single, c: Single)
    ensures
        !a.nan() && !b.nan() ==> a.lt(b) || a.alike(b) || b.lt(a),
        a.lt(b) ==> !b.lt(a) && !a.alike(b) && !b.le(a),
        a.lt(b) && b.lt(c) ==> a.lt(c),
        a.alike(b) ==> b.alike(a),
        a.alike(b) && b.lt(c) ==> a.lt(c),
        a.lt(b) && b.alike(c) ==> a.lt(c),
        a.le(b) <==> a.lt(b) || a.alike(b),
        a.nan() || b.nan() ==> !a.lt(b) && !a.le(b) && !a.alike(b),
        !a.nan() <==> a.alike(a),
{
}

/// The order of the numbers in terms of their bits. Without a sign, more bits
/// are more, up to infinity; with one, they are less. Numbers with a sign are
/// less than those without, but for the zeros, which are alike. All other
/// numbers are alike only to themselves.
pub proof fn law_order_of_bits(a: Single, b: Single)
    ensures
        a.nan() <==> 0x7f80_0000 < a.bits < 0x8000_0000 || 0xff80_0000 < a.bits,
        a.bits <= 0x7f80_0000 && b.bits <= 0x7f80_0000 ==> (a.lt(b) <==> a.bits < b.bits),
        0x8000_0000 <= a.bits <= 0xff80_0000 && 0x8000_0000 <= b.bits <= 0xff80_0000 ==> (a.lt(b)
            <==> b.bits < a.bits),
        0x8000_0000 < a.bits <= 0xff80_0000 && b.bits <= 0x7f80_0000 ==> a.lt(b),
        0x8000_0000 <= a.bits <= 0xff80_0000 && 0 < b.bits <= 0x7f80_0000 ==> a.lt(b),
        a.bits == 0 && b.bits == 0x8000_0000 ==> a.alike(b),
        a.alike(b) && a.bits != 0 && a.bits != 0x8000_0000 ==> a == b,
{
}

/// Clamping moves only what is outside the range, and to the near end of it;
/// what is inside stays as it is, bit for bit.
pub proof fn law_clamp(v: Single, lo: Single, hi: Single)
    requires
        lo.le(hi),
    ensures
        v.lt(lo) ==> v.clamped(lo, hi) == lo,
        hi.lt(v) ==> v.clamped(lo, hi) == hi,
        lo.le(v) && v.le(hi) ==> v.clamped(lo, hi) == v,
{
}

/// Without its sign a number is itself or its opposite, and never below zero.
/// Turning the sign round changes the sign alone, and does not matter to the
/// number without it.
pub proof fn law_sign(v: Single)
    ensures
        v.unsigned() == v || v.unsigned() == v.negated(),
        !v.nan() ==> (Single { bits: 0 }).le(v.unsigned()),
        v.negated().unsigned() == v.unsigned(),
        v.unsigned().unsigned() == v.unsigned(),
        v.negated() != v,
        v.negated().nan() == v.nan(),
        (Single { bits: 0 }).lt(v) <==> v.negated().lt(Single { bits: 0 }),
        (Single { bits: 0 }).lt(v) ==> v.unsigned() == v,
        v.lt(Single { bits: 0 }) ==> v.unsigned() == v.negated(),
{
}

} // verus!
