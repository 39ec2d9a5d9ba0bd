use vstd::arithmetic::div_mod::{
    lemma_div_by_multiple, lemma_div_is_ordered, lemma_div_pos_is_pos,
    lemma_fundamental_div_mod, lemma_fundamental_div_mod_converse_div,
    lemma_mod_division_less_than_divisor,
};
use vstd::arithmetic::mul::{lemma_mul_inequality, lemma_mul_nonnegative, lemma_mul_upper_bound};
use vstd::prelude::*;

verus! {

/// A point in screen space. Coordinates are fixed-point integers: one unit
/// stands for whatever sub-pixel granularity the caller picks, so that the
/// quarter-point interpolation below stays exact arithmetic.
#[derive(Clone, Copy, PartialEq, Eq, Structural, Debug)]
pub struct Point {
    pub x: i32,
    pub y: i32,
}

/// Linear interpolation of one coordinate at parameter `num / den`:
/// `a + (b - a) * num / den`, rounded toward negative infinity
/// (`/` on `int` is Euclidean division).
pub open spec fn lerp1(a: int, b: int, num: int, den: int) -> int {
    a + (b - a) * num / den
}

/// The point interpolated between `a` and `b` at parameter `num / den`,
/// coordinate by coordinate.
pub open spec fn lerp_pt(a: Point, b: Point, num: int, den: int) -> Point {
    Point {
        x: lerp1(a.x as int, b.x as int, num, den) as i32,
        y: lerp1(a.y as int, b.y as int, num, den) as i32,
    }
}

/// Rounding a nonnegative quotient up is the same as rounding its
/// negation down: `(-v) / d == -((v + d - 1) / d)`.
proof fn lemma_neg_div_as_ceil(v: int, d: int)
    requires
        v >= 0,
        d > 0,
    ensures
        (-v) / d == -((v + d - 1) / d),
{
    let q = (v + d - 1) / d;
    let r = (v + d - 1) % d;
    lemma_fundamental_div_mod(v + d - 1, d);
    lemma_mod_division_less_than_divisor(v + d - 1, d);
    assert(v + d - 1 == d * q + r);
    assert((-q) * d + (d - 1 - r) == -(d * q) + d - 1 - r) by (nonlinear_arith);
    assert(-v == (-q) * d + (d - 1 - r));
    lemma_fundamental_div_mod_converse_div(-v, d, -q, d - 1 - r);
}

/// The interpolated coordinate lies between the two endpoints whenever the
/// parameter lies in `[0, 1]`, that is, `0 <= num <= den`.
pub proof fn lemma_lerp1_between(a: int, b: int, num: int, den: int)
    requires
        0 < den,
        0 <= num <= den,
    ensures
        a <= b ==> a <= lerp1(a, b, num, den) <= b,
        b <= a ==> b <= lerp1(a, b, num, den) <= a,
{
    if a <= b {
        let v = (b - a) * num;
        lemma_mul_nonnegative(b - a, num);
        lemma_div_pos_is_pos(v, den);
        lemma_mul_inequality(num, den, b - a);
        assert(num * (b - a) <= den * (b - a)) by (nonlinear_arith)
            requires
                num <= den,
                0 <= b - a,
        ;
        assert(v <= (b - a) * den) by (nonlinear_arith)
            requires
                num <= den,
                0 <= b - a,
                v == (b - a) * num,
        ;
        lemma_div_is_ordered(v, (b - a) * den, den);
        lemma_div_by_multiple(b - a, den);
        assert(((b - a) * den) / den == b - a);
    } else {
        let w = (a - b) * num;
        lemma_mul_nonnegative(a - b, num);
        assert((b - a) * num == -w) by (nonlinear_arith)
            requires
                w == (a - b) * num,
        ;
        assert(w <= (a - b) * den) by (nonlinear_arith)
            requires
                num <= den,
                0 <= a - b,
                w == (a - b) * num,
        ;
        lemma_div_is_ordered(-((a - b) * den), -w, den);
        assert(-((a - b) * den) == (-(a - b)) * den + 0) by (nonlinear_arith);
        lemma_fundamental_div_mod_converse_div(-((a - b) * den), den, -(a - b), 0);
        assert((-((a - b) * den)) / den == -(a - b));
        lemma_div_is_ordered(-w, 0, den);
        assert(0int / den == 0) by {
            lemma_div_by_multiple(0, den);
            assert(0int * den == 0) by (nonlinear_arith);
        }
    }
}

/// One interpolated coordinate, computed exactly in integer arithmetic.
fn lerp_coord(a: i32, b: i32, num: u32, den: u32) -> (r: i32)
    requires
        1 <= den,
        num <= den,
    ensures
        r as int == lerp1(a as int, b as int, num as int, den as int),
{
    proof {
        lemma_lerp1_between(a as int, b as int, num as int, den as int);
    }
    if b >= a {
        let diff: u64 = ((b as i64) - (a as i64)) as u64;
        proof {
            lemma_mul_upper_bound(diff as int, 0xffff_ffff, num as int, 0xffff_ffff);
        }
        let prod: u64 = diff * (num as u64);
        let q: u64 = prod / (den as u64);
        proof {
            lemma_mul_inequality(num as int, den as int, diff as int);
            assert(prod as int <= diff as int * den as int) by (nonlinear_arith)
                requires
                    prod as int == diff as int * num as int,
                    num as int * diff as int <= den as int * diff as int,
            ;
            lemma_div_is_ordered(prod as int, diff as int * den as int, den as int);
            lemma_div_by_multiple(diff as int, den as int);
            lemma_div_pos_is_pos(prod as int, den as int);
        }
        let r64: i64 = (a as i64) + (q as i64);
        r64 as i32
    } else {
        let diff: u64 = ((a as i64) - (b as i64)) as u64;
        proof {
            lemma_mul_upper_bound(diff as int, 0xffff_ffff, num as int, 0xffff_ffff);
        }
        let prod: u64 = diff * (num as u64);
        let q: u64 = (prod + ((den as u64) - 1)) / (den as u64);
        proof {
            lemma_mul_inequality(num as int, den as int, diff as int);
            assert(prod as int <= diff as int * den as int) by (nonlinear_arith)
                requires
                    prod as int == diff as int * num as int,
                    num as int * diff as int <= den as int * diff as int,
            ;
            lemma_div_is_ordered(
                prod as int + den as int - 1,
                diff as int * den as int + den as int - 1,
                den as int,
            );
            assert(diff as int * den as int + den as int - 1 == (den as int) * (diff as int) + (
            den as int - 1)) by (nonlinear_arith);
            lemma_fundamental_div_mod_converse_div(
                diff as int * den as int + den as int - 1,
                den as int,
                diff as int,
                den as int - 1,
            );
            lemma_div_pos_is_pos(prod as int + den as int - 1, den as int);
            lemma_neg_div_as_ceil(prod as int, den as int);
            assert((b as int - a as int) * (num as int) == -(prod as int)) by (nonlinear_arith)
                requires
                    prod as int == (a as int - b as int) * (num as int),
            ;
        }
        let r64: i64 = (a as i64) - (q as i64);
        r64 as i32
    }
}

impl Point {
    /// Linear interpolation between `self` and `other` at parameter
    /// `num / den`, applied independently to each coordinate; the quarter
    /// points of an edge are `lerp(.., 1, 4)` and `lerp(.., 3, 4)`.
    pub fn lerp(&self, other: &Point, num: u32, den: u32) -> (r: Point)
        requires
            1 <= den,
            num <= den,
        ensures
            r == lerp_pt(*self, *other, num as int, den as int),
    {
        proof {
            lemma_lerp1_between(self.x as int, other.x as int, num as int, den as int);
            lemma_lerp1_between(self.y as int, other.y as int, num as int, den as int);
        }
        Point { x: lerp_coord(self.x, other.x, num, den), y: lerp_coord(self.y, other.y, num, den) }
    }
}

} // verus!
