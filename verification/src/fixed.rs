//! Fixed-point scalars and 2D vectors.
//!
//! One world unit is 1000 fixed-point steps ("milli").  Unit-length direction
//! vectors are held at a finer scale of 1_000_000 per unit ("micro") so that
//! normalising and rotating them loses little precision.  Every division in
//! the model truncates toward zero and every divisor is positive.

use vstd::prelude::*;

verus! {

/// Fixed-point steps per world unit.
pub const MILLI: i64 = 1000;

/// Fixed-point steps per unit length of a direction vector.
pub const MICRO: i64 = 1000000;

/// Truncating division (round toward zero) by a positive divisor.
pub open spec fn div_trunc(a: int, b: int) -> int
    recommends
        b > 0,
{
    if a >= 0 {
        a / b
    } else {
        -((-a) / b)
    }
}

/// Product of two milli-scaled values, itself at milli scale.
pub open spec fn mul_milli(a: int, b: int) -> int {
    div_trunc(a * b, MILLI as int)
}

/// Product of two milli-scaled `i64` values.
pub fn mul_milli64(a: i64, b: i64) -> (r: i64)
    requires
        i64::MIN <= mul_milli(a as int, b as int) <= i64::MAX,
    ensures
        r == mul_milli(a as int, b as int),
{
    let p: i128 = (a as i128) * (b as i128);
    let r: i128 = if p >= 0 {
        p / 1000
    } else {
        -((-p) / 1000)
    };
    r as i64
}

/// `a * b`, then truncating division by a positive `d`, without overflow of
/// the intermediate product.
pub fn mul_div64(a: i64, b: i64, d: i64) -> (r: i64)
    requires
        d > 0,
        i64::MIN <= div_trunc((a as int) * (b as int), d as int) <= i64::MAX,
    ensures
        r == div_trunc((a as int) * (b as int), d as int),
{
    proof {
        assert((a as int) * (b as int) < i128::MAX) by (nonlinear_arith)
            requires
                i64::MIN <= a <= i64::MAX,
                i64::MIN <= b <= i64::MAX,
        ;
        assert(i128::MIN < (a as int) * (b as int)) by (nonlinear_arith)
            requires
                i64::MIN <= a <= i64::MAX,
                i64::MIN <= b <= i64::MAX,
        ;
    }
    let p: i128 = (a as i128) * (b as i128);
    let r: i128 = if p >= 0 {
        p / (d as i128)
    } else {
        -((-p) / (d as i128))
    };
    r as i64
}

/// A 2D vector of milli-scaled world coordinates (or, where a function says
/// so, of micro-scaled direction components).
#[derive(Clone, Copy, PartialEq, Eq, Structural, Debug)]
pub struct Vec2Fix {
    pub x: i64,
    pub y: i64,
}

impl Vec2Fix {
    pub fn add(self, other: Vec2Fix) -> (v: Vec2Fix)
        requires
            i64::MIN <= self.x + other.x <= i64::MAX,
            i64::MIN <= self.y + other.y <= i64::MAX,
        ensures
            v.x == self.x + other.x,
            v.y == self.y + other.y,
    {
        Vec2Fix { x: self.x + other.x, y: self.y + other.y }
    }

    pub fn sub(self, other: Vec2Fix) -> (v: Vec2Fix)
        requires
            i64::MIN <= self.x - other.x <= i64::MAX,
            i64::MIN <= self.y - other.y <= i64::MAX,
        ensures
            v.x == self.x - other.x,
            v.y == self.y - other.y,
    {
        Vec2Fix { x: self.x - other.x, y: self.y - other.y }
    }

    /// Squared length at milli scale: `(x*x + y*y) / 1000`.
    pub open spec fn len2_milli(self) -> int {
        (self.x * self.x + self.y * self.y) / (MILLI as int)
    }

    /// Executable squared length at milli scale.
    pub fn len2_milli64(&self) -> (r: i64)
        requires
            -3000000000000000000 <= self.x <= 3000000000000000000,
            -3000000000000000000 <= self.y <= 3000000000000000000,
            self.len2_milli() <= i64::MAX,
        ensures
            r == self.len2_milli(),
            r >= 0,
    {
        proof {
            assert(self.x * self.x >= 0
                && self.x * self.x <= 9000000000000000000000000000000000000int
                && self.y * self.y >= 0
                && self.y * self.y <= 9000000000000000000000000000000000000int) by (nonlinear_arith)
                requires
                    -3000000000000000000 <= self.x <= 3000000000000000000,
                    -3000000000000000000 <= self.y <= 3000000000000000000,
            ;
        }
        let p: i128 = (self.x as i128) * (self.x as i128) + (self.y as i128) * (self.y as i128);
        let r: i128 = p / 1000;
        proof {
            vstd::arithmetic::div_mod::lemma_div_pos_is_pos(p as int, 1000int);
        }
        r as i64
    }

    /// Length at milli scale: since the components are milli-scaled, the
    /// plain integer square root of `x*x + y*y` is the milli-scaled length.
    pub open spec fn len_milli(self) -> int {
        sqrt_floor((self.x * self.x + self.y * self.y) as nat) as int
    }
}

/// Floor of the square root of a natural number.
pub open spec fn sqrt_floor(n: nat) -> nat
    decreases n,
{
    if n == 0 {
        0
    } else {
        let r = sqrt_floor((n - 1) as nat);
        if (r + 1) * (r + 1) <= n {
            (r + 1) as nat
        } else {
            r
        }
    }
}

/// `sqrt_floor(n)` is the unique natural `r` with `r*r <= n < (r+1)*(r+1)`.
pub proof fn lemma_sqrt_floor_bounds(n: nat)
    ensures
        sqrt_floor(n) * sqrt_floor(n) <= n,
        n < (sqrt_floor(n) + 1) * (sqrt_floor(n) + 1),
    decreases n,
{
    if n == 0 {
        assert(sqrt_floor(n) == 0);
        assert(n < (sqrt_floor(n) + 1) * (sqrt_floor(n) + 1)) by (nonlinear_arith)
            requires
                n == 0,
                sqrt_floor(n) == 0,
        ;
    } else {
        lemma_sqrt_floor_bounds((n - 1) as nat);
        let r = sqrt_floor((n - 1) as nat);
        if (r + 1) * (r + 1) <= n {
            assert(sqrt_floor(n) == r + 1);
            assert(n - 1 < (r + 1) * (r + 1));
            assert((r + 1) * (r + 1) < (r + 2) * (r + 2)) by (nonlinear_arith);
            assert(n < (r + 2) * (r + 2));
        } else {
            assert(sqrt_floor(n) == r);
            assert(r * r <= n - 1);
            assert(n < (r + 1) * (r + 1));
        }
    }
}

pub proof fn lemma_sqrt_floor_unique(n: nat, r: nat)
    requires
        r * r <= n,
        n < (r + 1) * (r + 1),
    ensures
        r == sqrt_floor(n),
{
    lemma_sqrt_floor_bounds(n);
    let s = sqrt_floor(n);
    if r < s {
        assert((r + 1) * (r + 1) <= s * s) by (nonlinear_arith)
            requires
                r + 1 <= s,
        ;
    }
    if s < r {
        assert((s + 1) * (s + 1) <= r * r) by (nonlinear_arith)
            requires
                s + 1 <= r,
        ;
    }
}

/// A micro-scaled direction `v` scaled by a milli-scaled factor `f`, giving
/// a milli-scaled vector.
pub open spec fn scale_by_micro(v: Vec2Fix, f: int) -> Vec2Fix {
    Vec2Fix {
        x: div_trunc(v.x * f, MICRO as int) as i64,
        y: div_trunc(v.y * f, MICRO as int) as i64,
    }
}

/// Counterclockwise rotation of `v` by the angle whose micro-scaled cosine
/// and sine are `cos` and `sin`.
pub open spec fn rotate_micro(v: Vec2Fix, cos: int, sin: int) -> Vec2Fix {
    Vec2Fix {
        x: div_trunc(v.x * cos - v.y * sin, MICRO as int) as i64,
        y: div_trunc(v.x * sin + v.y * cos, MICRO as int) as i64,
    }
}

/// Exact counterclockwise rotation by a quarter turn.
pub open spec fn rotate_quarter(v: Vec2Fix) -> Vec2Fix {
    Vec2Fix { x: (-v.y) as i64, y: v.x as i64 }
}

/// Exact clockwise rotation by a quarter turn.
pub open spec fn rotate_quarter_back(v: Vec2Fix) -> Vec2Fix {
    Vec2Fix { x: v.y as i64, y: (-v.x) as i64 }
}

/// Executable [`scale_by_micro`].
pub fn scale_by_micro64(v: Vec2Fix, f: i64) -> (r: Vec2Fix)
    requires
        i64::MIN <= div_trunc(v.x * f, MICRO as int) <= i64::MAX,
        i64::MIN <= div_trunc(v.y * f, MICRO as int) <= i64::MAX,
    ensures
        r == scale_by_micro(v, f as int),
{
    Vec2Fix { x: mul_div64(v.x, f, MICRO), y: mul_div64(v.y, f, MICRO) }
}

/// Executable [`rotate_micro`].
pub fn rotate_micro64(v: Vec2Fix, cos: i64, sin: i64) -> (r: Vec2Fix)
    requires
        -2000000 <= v.x <= 2000000,
        -2000000 <= v.y <= 2000000,
        -1000000 <= cos <= 1000000,
        -1000000 <= sin <= 1000000,
    ensures
        r == rotate_micro(v, cos as int, sin as int),
        -4000000 <= r.x <= 4000000,
        -4000000 <= r.y <= 4000000,
{
    proof {
        assert(-2000000000000 <= v.x * cos <= 2000000000000 && -2000000000000 <= v.y * sin
            <= 2000000000000 && -2000000000000 <= v.x * sin <= 2000000000000 && -2000000000000
            <= v.y * cos <= 2000000000000) by (nonlinear_arith)
            requires
                -2000000 <= v.x <= 2000000,
                -2000000 <= v.y <= 2000000,
                -1000000 <= cos <= 1000000,
                -1000000 <= sin <= 1000000,
        ;
        lemma_div_trunc_bound(v.x * cos - v.y * sin, 4000000000000, MICRO as int);
        lemma_div_trunc_bound(v.x * sin + v.y * cos, 4000000000000, MICRO as int);
    }
    let px: i128 = (v.x as i128) * (cos as i128) - (v.y as i128) * (sin as i128);
    let py: i128 = (v.x as i128) * (sin as i128) + (v.y as i128) * (cos as i128);
    let rx: i128 = if px >= 0 {
        px / 1000000
    } else {
        -((-px) / 1000000)
    };
    let ry: i128 = if py >= 0 {
        py / 1000000
    } else {
        -((-py) / 1000000)
    };
    Vec2Fix { x: rx as i64, y: ry as i64 }
}

/// A truncating quotient is no larger in magnitude than the bound of its
/// numerator divided by the divisor.
pub proof fn lemma_div_trunc_bound(a: int, bound: int, d: int)
    requires
        0 < d,
        0 <= bound,
        -bound <= a <= bound,
    ensures
        -(bound / d) <= div_trunc(a, d) <= bound / d,
{
    if a >= 0 {
        vstd::arithmetic::div_mod::lemma_div_pos_is_pos(a, d);
        vstd::arithmetic::div_mod::lemma_div_is_ordered(a, bound, d);
        vstd::arithmetic::div_mod::lemma_div_pos_is_pos(bound, d);
    } else {
        vstd::arithmetic::div_mod::lemma_div_pos_is_pos(-a, d);
        vstd::arithmetic::div_mod::lemma_div_is_ordered(-a, bound, d);
    }
}

/// Any natural whose square is at most `n` is at most `sqrt_floor(n)`.
pub proof fn lemma_sqrt_floor_lower(a: nat, n: nat)
    requires
        a * a <= n,
    ensures
        a <= sqrt_floor(n),
{
    lemma_sqrt_floor_bounds(n);
    let r = sqrt_floor(n);
    if a > r {
        assert((r + 1) * (r + 1) <= a * a) by (nonlinear_arith)
            requires
                r + 1 <= a,
        ;
    }
}

/// Integer square root by bisection.
pub fn isqrt(n: u128) -> (r: u64)
    ensures
        r == sqrt_floor(n as nat),
        r * r <= n,
        n < (r + 1) * (r + 1),
{
    let mut lo: u128 = 0;
    let mut hi: u128 = 0x1_0000_0000_0000_0000u128;
    proof {
        assert((0x1_0000_0000_0000_0000 as int) * (0x1_0000_0000_0000_0000 as int) > u128::MAX);
    }
    while lo + 1 < hi
        invariant
            lo < hi <= 0x1_0000_0000_0000_0000u128,
            lo * lo <= n,
            (hi as int) * (hi as int) > n,
        decreases hi - lo,
    {
        let mid = lo + (hi - lo) / 2;
        assert(mid * mid <= 0xffff_ffff_ffff_ffffu128 * 0xffff_ffff_ffff_ffffu128)
            by (nonlinear_arith)
            requires
                mid <= 0xffff_ffff_ffff_ffffu128,
        ;
        if mid * mid <= n {
            lo = mid;
        } else {
            hi = mid;
        }
    }
    assert(n < (lo + 1) * (lo + 1));
    proof {
        lemma_sqrt_floor_unique(n as nat, lo as nat);
    }
    lo as u64
}

} // verus!
