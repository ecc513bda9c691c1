//! Single-precision numbers as plain values.
//!
//! The pass compares and hands on single-precision coordinates; it leaves arithmetic on them to
//! the renderer that drives it. A [`Scalar`] therefore holds the IEEE 754 binary32 encoding of a
//! number, which is enough to order numbers exactly.
use vstd::arithmetic::power2::{
    lemma2_to64, lemma_pow2_pos, lemma_pow2_strictly_increases, lemma_pow2_unfold, pow2,
};
use vstd::prelude::*;

verus! {

/// The encoding of `0.0`.
pub const ZERO: u32 = 0;

/// The encoding of `1.0`.
pub const ONE: u32 = 0x3f80_0000;

/// The encoding of `-1.0`.
pub const MINUS_ONE: u32 = 0xbf80_0000;

/// The encoding of `-0.5`.
pub const MINUS_HALF: u32 = 0xbf00_0000;

/// The encodings from here on have the sign bit set.
pub const SIGN: u32 = 0x8000_0000;

/// The encoding of positive infinity; larger magnitudes are not numbers.
pub const INFINITY: u32 = 0x7f80_0000;

/// A single-precision number, by its binary32 encoding.
#[derive(Clone, Copy, Debug, PartialEq, Eq, Structural)]
pub struct Scalar {
    pub bits: u32,
}

impl View for Scalar {
    type V = Scalar;

    open spec fn view(&self) -> Scalar {
        *self
    }
}

impl Scalar {
    /// The position of a number among all numbers, in ascending order. Both zeros stand at 0,
    /// and a number and its negation stand at opposite positions.
    pub open spec fn order(self) -> int {
        if self.bits < SIGN {
            self.bits as int
        } else {
            SIGN - self.bits
        }
    }

    /// Whether this encoding is one of "not a number".
    pub open spec fn nan(self) -> bool {
        self.order() > INFINITY || self.order() < -INFINITY
    }

    /// `self < other`, which is false when either side is not a number.
    pub open spec fn less(self, other: Scalar) -> bool {
        !self.nan() && !other.nan() && self.order() < other.order()
    }

    /// `self <= other`, which is false when either side is not a number.
    pub open spec fn at_most(self, other: Scalar) -> bool {
        !self.nan() && !other.nan() && self.order() <= other.order()
    }

    /// `self == other` as numbers: both zeros are equal, and "not a number" equals nothing.
    pub open spec fn same(self, other: Scalar) -> bool {
        !self.nan() && !other.nan() && self.order() == other.order()
    }

    /// The larger of two numbers; where one of them is not a number, the other one. Of two numbers
    /// that are the same it is the first.
    pub open spec fn larger(self, other: Scalar) -> Scalar {
        if self.nan() || self.less(other) {
            other
        } else {
            self
        }
    }

    /// The smaller of two numbers; where one of them is not a number, the other one. Of two numbers
    /// that are the same it is the first.
    pub open spec fn smaller(self, other: Scalar) -> Scalar {
        if self.nan() || other.less(self) {
            other
        } else {
            self
        }
    }

    /// Whether this encodes a whole number from 0 up to 2^24: the exponent is that of the highest
    /// power of two in it, and the fraction is what is left, at the upper end of 23 bits.
    pub open spec fn is_whole(self, n: int) -> bool {
        if n == 0 {
            self.bits == ZERO
        } else {
            exists|e: nat| #[trigger] self.is_whole_in(n, e)
        }
    }

    /// Whether this encodes a whole number whose highest power of two has the exponent `e`.
    pub open spec fn is_whole_in(self, n: int, e: nat) -> bool {
        &&& e <= 23
        &&& pow2(e) <= n < pow2(e + 1)
        &&& self.bits * pow2(e) == ((e + 127) * pow2(e) + n - pow2(e)) * pow2(23)
    }

    /// The position of this number among all numbers.
    fn position(self) -> (p: i64)
        ensures
            p == self.order(),
    {
        if self.bits < SIGN {
            self.bits as i64
        } else {
            SIGN as i64 - self.bits as i64
        }
    }

    /// Whether this is "not a number".
    pub fn is_nan(self) -> (b: bool)
        ensures
            b == self.nan(),
    {
        let p: i64 = self.position();
        p > INFINITY as i64 || p < -(INFINITY as i64)
    }

    /// Whether `self < other`.
    pub fn is_less(self, other: Scalar) -> (b: bool)
        ensures
            b == self.less(other),
    {
        !self.is_nan() && !other.is_nan() && self.position() < other.position()
    }

    /// Whether `self <= other`.
    pub fn is_at_most(self, other: Scalar) -> (b: bool)
        ensures
            b == self.at_most(other),
    {
        !self.is_nan() && !other.is_nan() && self.position() <= other.position()
    }

    /// Whether `self == other` as numbers.
    pub fn is_same(self, other: Scalar) -> (b: bool)
        ensures
            b == self.same(other),
    {
        !self.is_nan() && !other.is_nan() && self.position() == other.position()
    }

    /// The larger of two numbers, ignoring one that is not a number.
    pub fn max_of(self, other: Scalar) -> (m: Scalar)
        ensures
            m == self.larger(other),
    {
        if self.is_nan() || self.is_less(other) {
            other
        } else {
            self
        }
    }

    /// The smaller of two numbers, ignoring one that is not a number.
    pub fn min_of(self, other: Scalar) -> (m: Scalar)
        ensures
            m == self.smaller(other),
    {
        if self.is_nan() || other.is_less(self) {
            other
        } else {
            self
        }
    }
}

/// The larger and the smaller of two numbers are those two, and bound them from above and below.
pub proof fn larger_and_smaller_are_bounds(a: Scalar, b: Scalar)
    requires
        !a.nan(),
        !b.nan(),
    ensures
        (a.larger(b) == a && a.smaller(b) == b) || (a.larger(b) == b && a.smaller(b) == a)
            || a.same(b),
        a.larger(b) == a || a.larger(b) == b,
        a.smaller(b) == a || a.smaller(b) == b,
        a.at_most(a.larger(b)),
        b.at_most(a.larger(b)),
        a.smaller(b).at_most(a),
        a.smaller(b).at_most(b),
{
}

/// A whole number up to 4096 is at most `4096.0`.
pub proof fn whole_numbers_keep_the_limit(s: Scalar, n: int)
    requires
        0 <= n <= 4096,
        s.is_whole(n),
    ensures
        s.at_most(Scalar { bits: 0x4580_0000 }),
{
    lemma2_to64();
    if n > 0 {
        let e = choose|e: nat| #[trigger] s.is_whole_in(n, e);
        if e > 12 {
            lemma_pow2_strictly_increases(12, e);
        }
        let bits = s.bits as int;
        let unit = pow2(e) as int;
        assert(bits * unit == ((e + 127) * unit + n - unit) * 0x80_0000);
        if e == 12 {
            assert(bits == 139 * 0x80_0000) by (nonlinear_arith)
                requires
                    bits * unit == ((e + 127) * unit + n - unit) * 0x80_0000,
                    n == unit,
                    unit == 4096,
                    e == 12,
            ;
        } else {
            lemma_pow2_unfold((e + 1) as nat);
            lemma_pow2_pos(e);
            assert(bits < (e + 128) * 0x80_0000) by (nonlinear_arith)
                requires
                    bits * unit == ((e + 127) * unit + n - unit) * 0x80_0000,
                    n < 2 * unit,
                    unit > 0,
            ;
            assert(bits <= 139 * 0x80_0000);
        }
    }
}

} // verus!
