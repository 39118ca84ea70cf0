//! Plain geometric values shared by the whole viewer.
//!
//! All quantities are fixed-point integers: pixel positions and sizes are
//! whole pixels, projected coordinates are millimeters, and zoom factors are
//! millionths (a zoom of 1.0 is [`ZOOM_SCALE`] units).  Keeping every value
//! integral makes request keys bit-exact, which the tile deduplication
//! relies on.

use vstd::prelude::*;

verus! {

/// Fixed-point scale for zoom factors: a zoom of 1.0 is `ZOOM_SCALE` units.
pub const ZOOM_SCALE: u32 = 1_000_000;

/// Upper bound on chart pixel dimensions the viewer accepts.  Real charts are
/// a few tens of thousands of pixels on a side; the cap keeps all derived
/// arithmetic comfortably inside `i64`.
pub const MAX_DIM: i64 = 16_777_216;

/// A position in pixel space (display or chart), in whole pixels.
#[derive(Clone, Copy, Debug, PartialEq, Eq, Hash, Structural)]
pub struct Pos {
    pub x: i64,
    pub y: i64,
}

/// A size in pixel space, in whole pixels.
#[derive(Clone, Copy, Debug, PartialEq, Eq, Hash, Structural)]
pub struct Size {
    pub w: i64,
    pub h: i64,
}

/// A rectangle in pixel space.
#[derive(Clone, Copy, Debug, PartialEq, Eq, Hash, Structural)]
pub struct Rect {
    pub pos: Pos,
    pub size: Size,
}

/// A coordinate in a chart's projected frame (millimeters) or, for feature
/// records, in the geodetic frame (tenths of a milliarcsecond).
#[derive(Clone, Copy, Debug, PartialEq, Eq, Hash, Structural)]
pub struct Coord {
    pub x: i64,
    pub y: i64,
}

/// Magnitude bound under which the division helpers below are free of
/// overflow; every quantity in the viewer stays far inside it.
pub const DIV_LIMIT: i64 = 0x4000_0000_0000_0000;

/// Quotient of `n` by nonzero `d`, rounded toward negative infinity.
pub open spec fn floor_div(n: int, d: int) -> int {
    if d > 0 {
        n / d
    } else {
        (-n) / (-d)
    }
}

/// Floor division by a multiple returns the factor exactly.
pub proof fn lemma_floor_div_exact(a: int, d: int)
    requires
        d != 0,
    ensures
        floor_div(d * a, d) == a,
{
    if d > 0 {
        vstd::arithmetic::div_mod::lemma_fundamental_div_mod_converse(d * a, d, a, 0);
    } else {
        vstd::arithmetic::mul::lemma_mul_unary_negation(d, a);
        vstd::arithmetic::div_mod::lemma_fundamental_div_mod_converse(-(d * a), -d, a, 0);
    }
}

/// Euclidean quotient for a positive divisor.
pub fn div_euclid_pos(n: i64, d: i64) -> (q: i64)
    requires
        1 <= d < DIV_LIMIT,
        -DIV_LIMIT < n < DIV_LIMIT,
    ensures
        q == n as int / d as int,
{
    if n >= 0 {
        let qu: u64 = (n as u64) / (d as u64);
        proof {
            vstd::arithmetic::div_mod::lemma_div_is_ordered_by_denominator(n as int, 1, d as int);
            vstd::arithmetic::div_mod::lemma_div_by_self(1);
        }
        qu as i64
    } else {
        let mu: u64 = (-n) as u64;
        let du: u64 = d as u64;
        let q0: u64 = mu / du;
        let r0: u64 = mu % du;
        proof {
            vstd::arithmetic::div_mod::lemma_fundamental_div_mod(mu as int, du as int);
            vstd::arithmetic::div_mod::lemma_mod_bound(mu as int, du as int);
            vstd::arithmetic::div_mod::lemma_div_is_ordered_by_denominator(mu as int, 1, du as int);
            vstd::arithmetic::div_mod::lemma_div_by_self(1);
        }
        if r0 == 0 {
            proof {
                // n == d * (-q0) + 0
                vstd::arithmetic::mul::lemma_mul_unary_negation(du as int, q0 as int);
                vstd::arithmetic::div_mod::lemma_fundamental_div_mod_converse(
                    n as int,
                    d as int,
                    -(q0 as int),
                    0,
                );
            }
            -(q0 as i64)
        } else {
            proof {
                // n == d * (-q0 - 1) + (d - r0), with 0 < d - r0 < d
                vstd::arithmetic::mul::lemma_mul_is_distributive_sub(
                    du as int,
                    -(q0 as int),
                    1,
                );
                vstd::arithmetic::mul::lemma_mul_unary_negation(du as int, q0 as int);
                vstd::arithmetic::div_mod::lemma_fundamental_div_mod_converse(
                    n as int,
                    d as int,
                    -(q0 as int) - 1,
                    d as int - r0 as int,
                );
            }
            -(q0 as i64) - 1
        }
    }
}

/// Quotient of `n` by nonzero `d`, rounded toward negative infinity.
pub fn floor_div_i64(n: i64, d: i64) -> (q: i64)
    requires
        d != 0,
        -DIV_LIMIT < n < DIV_LIMIT,
        -DIV_LIMIT < d < DIV_LIMIT,
    ensures
        q == floor_div(n as int, d as int),
{
    if d > 0 {
        div_euclid_pos(n, d)
    } else {
        div_euclid_pos(-n, -d)
    }
}

/// Quotient of `a` by positive `d`, rounded up.
pub fn ceil_div_u64(a: u64, d: u64) -> (q: u64)
    requires
        1 <= d,
        a + d - 1 <= u64::MAX,
    ensures
        q == (a + d - 1) as int / d as int,
{
    (a + (d - 1)) / d
}

impl Size {
    /// A size the viewer accepts: positive in both axes and within [`MAX_DIM`].
    pub open spec fn spec_is_valid(self) -> bool {
        0 < self.w <= MAX_DIM && 0 < self.h <= MAX_DIM
    }

    /// Whether this is a size the viewer accepts.
    pub fn is_valid(&self) -> (r: bool)
        ensures
            r == self.spec_is_valid(),
    {
        0 < self.w && self.w <= MAX_DIM && 0 < self.h && self.h <= MAX_DIM
    }

    /// Whether a pixel position lies inside a chart of this size.
    pub open spec fn spec_contains(self, p: Pos) -> bool {
        0 <= p.x < self.w && 0 <= p.y < self.h
    }

    /// Whether `p` lies inside a chart of this size.
    pub fn contains(&self, p: Pos) -> (r: bool)
        ensures
            r == self.spec_contains(p),
    {
        0 <= p.x && p.x < self.w && 0 <= p.y && p.y < self.h
    }
}

} // verus!
