//! Exact rational parametric distances.
//!
//! A ray hit at parameter `t = num / den` is kept as the pair itself
//! (denominator positive), so distances along a ray compare exactly by
//! cross-multiplication and no precision is lost.

use vstd::prelude::*;
use crate::fixed::lemma_mul_bounds;

verus! {

/// An exact rational number `num / den` with `den > 0`.
#[derive(Clone, Copy, Debug, PartialEq, Eq, Structural)]
pub struct Rat {
    pub num: i64,
    pub den: i64,
}

/// `a <= b` on rationals with positive denominators.
pub open spec fn rat_le(a: Rat, b: Rat) -> bool {
    (a.num as int) * (b.den as int) <= (b.num as int) * (a.den as int)
}

/// `a < b` on rationals with positive denominators.
pub open spec fn rat_lt(a: Rat, b: Rat) -> bool {
    (a.num as int) * (b.den as int) < (b.num as int) * (a.den as int)
}

impl Rat {
    pub open spec fn wf(self) -> bool {
        self.den > 0
    }

    /// The integer `n` as a rational.
    pub open spec fn spec_int(n: int) -> Rat {
        Rat { num: n as i64, den: 1i64 }
    }

    pub fn new(num: i64, den: i64) -> (r: Rat)
        requires
            den > 0,
        ensures
            r == (Rat { num, den }),
            r.wf(),
    {
        Rat { num, den }
    }

    pub fn from_int(n: i64) -> (r: Rat)
        ensures
            r == Rat::spec_int(n as int),
            r.wf(),
    {
        Rat { num: n, den: 1 }
    }

    pub open spec fn is_nonneg(self) -> bool {
        self.num >= 0
    }

    pub fn le(self, o: Rat) -> (r: bool)
        ensures
            r == rat_le(self, o),
    {
        proof {
            lemma_mul_bounds(
                self.num as int,
                o.den as int,
                0x8000_0000_0000_0000,
                0x8000_0000_0000_0000,
            );
            lemma_mul_bounds(
                o.num as int,
                self.den as int,
                0x8000_0000_0000_0000,
                0x8000_0000_0000_0000,
            );
        }
        (self.num as i128) * (o.den as i128) <= (o.num as i128) * (self.den as i128)
    }

    pub fn lt(self, o: Rat) -> (r: bool)
        ensures
            r == rat_lt(self, o),
    {
        proof {
            lemma_mul_bounds(
                self.num as int,
                o.den as int,
                0x8000_0000_0000_0000,
                0x8000_0000_0000_0000,
            );
            lemma_mul_bounds(
                o.num as int,
                self.den as int,
                0x8000_0000_0000_0000,
                0x8000_0000_0000_0000,
            );
        }
        (self.num as i128) * (o.den as i128) < (o.num as i128) * (self.den as i128)
    }
}

/// A strict bound carries through a non-strict one.
pub proof fn lemma_rat_lt_le_trans(a: Rat, b: Rat, c: Rat)
    requires
        a.wf(),
        b.wf(),
        c.wf(),
        rat_lt(a, b),
        rat_le(b, c),
    ensures
        rat_lt(a, c),
{
    assert((a.num as int) * (c.den as int) < (c.num as int) * (a.den as int))
        by (nonlinear_arith)
        requires
            a.den > 0,
            b.den > 0,
            c.den > 0,
            (a.num as int) * (b.den as int) < (b.num as int) * (a.den as int),
            (b.num as int) * (c.den as int) <= (c.num as int) * (b.den as int),
    ;
}

} // verus!
