//! Fixed-point 3D geometry.
//!
//! Every world quantity is carried as a plain integer: a coordinate is a
//! whole number of thousandths of a world unit, time is a whole number of
//! milliseconds, a speed is thousandths of a unit per second, and an
//! acceleration is thousandths of a unit per second squared. Contracts
//! are stated over the unbounded mathematical vectors `Vec3i`.

use vstd::arithmetic::div_mod::{
    lemma_div_is_ordered, lemma_div_multiples_vanish, lemma_fundamental_div_mod,
    lemma_fundamental_div_mod_converse,
};
use vstd::arithmetic::mul::lemma_mul_inequality;
use vstd::prelude::*;

verus! {

/// Thousandths in a world unit, and milliseconds in a second.
pub const MILLI: i64 = 1000;

/// Mathematical counterpart of `Vec3`: a vector of unbounded integers.
pub ghost struct Vec3i {
    pub x: int,
    pub y: int,
    pub z: int,
}

/// A point or direction in the world, in thousandths of a unit per component.
#[derive(Clone, Copy, PartialEq, Eq, Structural, Debug)]
pub struct Vec3 {
    pub x: i64,
    pub y: i64,
    pub z: i64,
}

impl View for Vec3 {
    type V = Vec3i;

    open spec fn view(&self) -> Vec3i {
        Vec3i { x: self.x as int, y: self.y as int, z: self.z as int }
    }
}

pub open spec fn v3(x: int, y: int, z: int) -> Vec3i {
    Vec3i { x, y, z }
}

pub open spec fn add3(a: Vec3i, b: Vec3i) -> Vec3i {
    v3(a.x + b.x, a.y + b.y, a.z + b.z)
}

pub open spec fn sub3(a: Vec3i, b: Vec3i) -> Vec3i {
    v3(a.x - b.x, a.y - b.y, a.z - b.z)
}

pub open spec fn dot3(a: Vec3i, b: Vec3i) -> int {
    a.x * b.x + a.y * b.y + a.z * b.z
}

pub open spec fn mag2(a: Vec3i) -> int {
    dot3(a, a)
}

pub open spec fn iabs(x: int) -> int {
    if x < 0 {
        -x
    } else {
        x
    }
}

/// Sum of the absolute component values; the tolerance within which a
/// clipped point provably lies on the camera plane.
pub open spec fn l1(a: Vec3i) -> int {
    iabs(a.x) + iabs(a.y) + iabs(a.z)
}

pub open spec fn in_range(a: Vec3i, lim: int) -> bool {
    iabs(a.x) <= lim && iabs(a.y) <= lim && iabs(a.z) <= lim
}

/// Component bound under which sums of two vectors cannot overflow `i64`.
pub const ADD_LIMIT: i64 = 0x1000_0000_0000_0000;

/// Component bound under which a dot product cannot overflow `i64`.
pub const DOT_LIMIT: i64 = 1_000_000_000;

impl Vec3 {
    pub fn new(x: i64, y: i64, z: i64) -> (r: Vec3)
        ensures
            r@ == v3(x as int, y as int, z as int),
    {
        Vec3 { x, y, z }
    }

    pub fn add(self, b: Vec3) -> (r: Vec3)
        requires
            in_range(self@, ADD_LIMIT as int),
            in_range(b@, ADD_LIMIT as int),
        ensures
            r@ == add3(self@, b@),
    {
        Vec3 { x: self.x + b.x, y: self.y + b.y, z: self.z + b.z }
    }

    pub fn sub(self, b: Vec3) -> (r: Vec3)
        requires
            in_range(self@, ADD_LIMIT as int),
            in_range(b@, ADD_LIMIT as int),
        ensures
            r@ == sub3(self@, b@),
    {
        Vec3 { x: self.x - b.x, y: self.y - b.y, z: self.z - b.z }
    }

    pub fn dot(self, b: Vec3) -> (r: i64)
        requires
            in_range(self@, DOT_LIMIT as int),
            in_range(b@, DOT_LIMIT as int),
        ensures
            r == dot3(self@, b@),
    {
        proof {
            let l = DOT_LIMIT as int;
            lemma_mul_bound(self@.x, b@.x, l, l);
            lemma_mul_bound(self@.y, b@.y, l, l);
            lemma_mul_bound(self@.z, b@.z, l, l);
        }
        self.x * b.x + self.y * b.y + self.z * b.z
    }

    pub fn mag2(self) -> (r: i64)
        requires
            in_range(self@, DOT_LIMIT as int),
        ensures
            r == mag2(self@),
            r >= 0,
    {
        proof {
            lemma_square_nonneg(self@.x);
            lemma_square_nonneg(self@.y);
            lemma_square_nonneg(self@.z);
        }
        self.dot(self)
    }
}

/// A product of values bounded in magnitude is itself bounded.
pub proof fn lemma_mul_bound(x: int, y: int, lx: int, ly: int)
    requires
        iabs(x) <= lx,
        iabs(y) <= ly,
    ensures
        -(lx * ly) <= x * y <= lx * ly,
        iabs(x * y) <= lx * ly,
{
    assert(-(lx * ly) <= x * y <= lx * ly) by (nonlinear_arith)
        requires
            -lx <= x <= lx,
            -ly <= y <= ly,
            0 <= lx,
            0 <= ly,
    ;
}

pub proof fn lemma_square_nonneg(x: int)
    ensures
        x * x >= 0,
{
    assert(x * x >= 0) by (nonlinear_arith);
}

/// A vector with bounded components has a bounded squared magnitude.
pub proof fn lemma_mag2_range(v: Vec3i, lim: int)
    requires
        in_range(v, lim),
    ensures
        0 <= mag2(v) <= 3 * (lim * lim),
{
    lemma_mul_bound(v.x, v.x, lim, lim);
    lemma_mul_bound(v.y, v.y, lim, lim);
    lemma_mul_bound(v.z, v.z, lim, lim);
    lemma_square_nonneg(v.x);
    lemma_square_nonneg(v.y);
    lemma_square_nonneg(v.z);
}

/// A dot product of vectors with bounded components is bounded.
pub proof fn lemma_dot_range(a: Vec3i, b: Vec3i, la: int, lb: int)
    requires
        in_range(a, la),
        in_range(b, lb),
    ensures
        iabs(dot3(a, b)) <= 3 * (la * lb),
{
    lemma_mul_bound(a.x, b.x, la, lb);
    lemma_mul_bound(a.y, b.y, la, lb);
    lemma_mul_bound(a.z, b.z, la, lb);
}

/// Mathematical counterpart of `Point2`.
pub ghost struct Point2i {
    pub x: int,
    pub y: int,
}

/// A projected point on the viewport, in pixels (possibly off-screen).
#[derive(Clone, Copy, PartialEq, Eq, Structural, Debug)]
pub struct Point2 {
    pub x: i64,
    pub y: i64,
}

impl View for Point2 {
    type V = Point2i;

    open spec fn view(&self) -> Point2i {
        Point2i { x: self.x as int, y: self.y as int }
    }
}

pub open spec fn p2(x: int, y: int) -> Point2i {
    Point2i { x, y }
}

/// Largest dividend magnitude the floor-division helpers accept.
pub const DIV_LIMIT: i64 = 0x4000_0000_0000_0000;

/// Floor division of a possibly negative dividend by a positive divisor,
/// agreeing with mathematical (Euclidean) integer division.
pub fn div_floor_i64(a: i64, b: i64) -> (r: i64)
    requires
        1 <= b,
        -DIV_LIMIT <= a <= DIV_LIMIT,
    ensures
        r == a as int / b as int,
{
    if a >= 0 {
        ((a as u64) / (b as u64)) as i64
    } else {
        let na: u64 = (-a) as u64;
        let bu: u64 = b as u64;
        let q: u64 = na / bu;
        let rem: u64 = na % bu;
        proof {
            lemma_div_neg(a as int, b as int);
        }
        if rem == 0 {
            -(q as i64)
        } else {
            -(q as i64) - 1
        }
    }
}

/// For a negative dividend and positive divisor, floor division rounds away
/// from zero exactly when the magnitudes do not divide evenly.
proof fn lemma_div_neg(a: int, b: int)
    requires
        a < 0,
        1 <= b,
    ensures
        a / b == if (-a) % b == 0 {
            -((-a) / b)
        } else {
            -((-a) / b) - 1
        },
{
    let n = -a;
    let q0 = n / b;
    let r0 = n % b;
    lemma_fundamental_div_mod(n, b);
    if r0 == 0 {
        assert(a == (-q0) * b + 0) by (nonlinear_arith)
            requires
                n == b * q0 + r0,
                r0 == 0,
                a == -n,
        ;
        lemma_fundamental_div_mod_converse(a, b, -q0, 0);
    } else {
        assert(a == (-q0 - 1) * b + (b - r0)) by (nonlinear_arith)
            requires
                n == b * q0 + r0,
                a == -n,
        ;
        lemma_fundamental_div_mod_converse(a, b, -q0 - 1, b - r0);
    }
}

/// Floor division for wide intermediates (used by segment clipping).
pub fn div_floor_i128(a: i128, b: i128) -> (r: i128)
    requires
        1 <= b,
        -0x4000_0000_0000_0000_0000_0000_0000_0000 <= a
            <= 0x4000_0000_0000_0000_0000_0000_0000_0000,
    ensures
        r == a as int / b as int,
{
    if a >= 0 {
        ((a as u128) / (b as u128)) as i128
    } else {
        let na: u128 = (-a) as u128;
        let bu: u128 = b as u128;
        let q: u128 = na / bu;
        let rem: u128 = na % bu;
        proof {
            lemma_div_neg(a as int, b as int);
        }
        if rem == 0 {
            -(q as i128)
        } else {
            -(q as i128) - 1
        }
    }
}

/// `|n / q| <= k` whenever `|n| <= k * m` for some positive `m <= q`.
pub proof fn lemma_scaled_div_bound(n: int, q: int, m: int, k: int)
    requires
        1 <= m <= q,
        0 <= k,
        iabs(n) <= k * m,
    ensures
        iabs(n / q) <= k,
{
    lemma_mul_inequality(m, q, k);
    assert(k * m == m * k && k * q == q * k) by (nonlinear_arith);
    lemma_div_is_ordered(n, k * q, q);
    lemma_div_multiples_vanish(k, q);
    assert((q * k) / q == k);
    lemma_div_is_ordered(-(k * q), n, q);
    lemma_div_multiples_vanish(-k, q);
    assert((q * -k) / q == -k);
    assert(q * -k == -(q * k)) by (nonlinear_arith);
}

/// Floor division by a positive divisor cannot grow the magnitude.
pub proof fn lemma_div_abs_bound(n: int, q: int)
    requires
        1 <= q,
    ensures
        iabs(n / q) <= iabs(n),
{
    lemma_scaled_div_bound(n, q, 1, iabs(n));
}

/// A floor square root of a positive number is positive.
pub proof fn lemma_sqrt_positive(n: int, r: int)
    requires
        1 <= n,
        0 <= r,
        n < (r + 1) * (r + 1),
    ensures
        1 <= r,
{
    if r == 0 {
        assert((0 + 1) * (0 + 1) == 1) by (nonlinear_arith);
    }
}

/// Floor of the square root, as a recursively defined specification.
pub open spec fn sqrt_floor(n: nat) -> nat
    decreases n,
{
    if n == 0 {
        0
    } else {
        let s = sqrt_floor((n - 1) as nat);
        if (s + 1) * (s + 1) <= n {
            s + 1
        } else {
            s
        }
    }
}

pub proof fn lemma_sqrt_floor_bounds(n: nat)
    ensures
        sqrt_floor(n) * sqrt_floor(n) <= n,
        n < (sqrt_floor(n) + 1) * (sqrt_floor(n) + 1),
    decreases n,
{
    if n > 0 {
        let m = (n - 1) as nat;
        lemma_sqrt_floor_bounds(m);
        let s = sqrt_floor(m);
        let r = sqrt_floor(n);
        assert(r == if (s + 1) * (s + 1) <= n {
            s + 1
        } else {
            s
        });
        if (s + 1) * (s + 1) <= n {
            assert(r * r <= n);
            assert(n < (r + 1) * (r + 1)) by (nonlinear_arith)
                requires
                    n <= (s + 1) * (s + 1),
                    r == s + 1,
                    0 <= s,
            ;
        } else {
            assert(r * r <= n);
            assert(n < (r + 1) * (r + 1));
        }
    } else {
        let r = sqrt_floor(n);
        assert(r == 0);
        assert(r * r <= n && n < (r + 1) * (r + 1)) by (nonlinear_arith)
            requires
                r == 0,
                n == 0,
        ;
    }
}

pub proof fn lemma_sqrt_floor_unique(n: nat, r: nat)
    requires
        r * r <= n,
        n < (r + 1) * (r + 1),
    ensures
        r == sqrt_floor(n),
{
    let s = sqrt_floor(n);
    lemma_sqrt_floor_bounds(n);
    if r < s {
        assert((r + 1) * (r + 1) <= s * s) by (nonlinear_arith)
            requires
                r + 1 <= s,
        ;
    }
    if s < r {
        assert((s + 1) * (s + 1) <= r * r) by (nonlinear_arith)
            requires
                s + 1 <= r,
        ;
    }
}

/// Largest argument `isqrt` accepts.
pub const ISQRT_LIMIT: u64 = 0x4000_0000_0000_0000;

/// Floor of the square root, by binary search.
pub fn isqrt(n: u64) -> (r: u64)
    requires
        n <= ISQRT_LIMIT,
    ensures
        r == sqrt_floor(n as nat),
        r * r <= n < (r + 1) * (r + 1),
        r <= 0x8000_0000,
{
    let mut lo: u64 = 0;
    let mut hi: u64 = 0x8000_0000;
    proof {
        assert(((0x8000_0000u64 + 1) * (0x8000_0000u64 + 1)) > ISQRT_LIMIT) by (nonlinear_arith);
    }
    while lo < hi
        invariant
            lo <= hi <= 0x8000_0000,
            lo * lo <= n,
            n < (hi + 1) * (hi + 1),
        decreases hi - lo,
    {
        let mid = lo + (hi - lo + 1) / 2;
        assert(lo < mid <= hi);
        proof {
            lemma_mul_bound(mid as int, mid as int, 0x8000_0000, 0x8000_0000);
        }
        if mid * mid <= n {
            lo = mid;
        } else {
            hi = mid - 1;
        }
    }
    proof {
        lemma_sqrt_floor_unique(n as nat, lo as nat);
    }
    lo
}

} // verus!
