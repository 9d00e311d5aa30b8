//! Integer vectors and the arithmetic the rest of the crate is built on.

use vstd::prelude::*;

verus! {

/// What the fixed-point value `1.0` is stored as: factors are counted in
/// thousandths.
pub const UNIT: i32 = 1000;

/// A point, an offset or a velocity with three signed components.
#[derive(Clone, Copy, Debug, PartialEq, Eq, Structural)]
pub struct Vec3i {
    pub x: i32,
    pub y: i32,
    pub z: i32,
}

/// A pair of non-negative numbers: the extent of a rectangle, or a scale.
#[derive(Clone, Copy, Debug, PartialEq, Eq, Structural)]
pub struct Vec2u {
    pub x: u32,
    pub y: u32,
}

/// The square of `a`.
pub open spec fn sq(a: int) -> int {
    a * a
}

/// The squared Euclidean distance between two points.
pub open spec fn dist2_spec(a: Vec3i, b: Vec3i) -> int {
    sq(a.x - b.x) + sq(a.y - b.y) + sq(a.z - b.z)
}

/// The square of a difference of two `i32` values, which always fits in 64
/// bits.
pub fn sq_diff(a: i32, b: i32) -> (s: u64)
    ensures
        s == sq(a - b),
{
    let d: i64 = a as i64 - b as i64;
    let m: u64 = if d < 0 { (-d) as u64 } else { d as u64 };
    assert(m <= 0xffff_ffff);
    assert(m * m <= 0xffff_ffff * 0xffff_ffff) by (nonlinear_arith)
        requires
            m <= 0xffff_ffff,
    ;
    assert(m * m == sq(a - b)) by (nonlinear_arith)
        requires
            m == a - b || m == -(a - b),
    ;
    m * m
}

/// Division that rounds towards minus infinity, for a positive divisor.
pub fn div_floor(a: i128, b: i128) -> (q: i128)
    requires
        b > 0,
    ensures
        q == a as int / b as int,
{
    let q: i128 = a / b;
    let r: i128 = a % b;
    proof {
        if a < 0 {
            let n = -(a as int);
            vstd::arithmetic::div_mod::lemma_fundamental_div_mod(n, b as int);
            vstd::arithmetic::div_mod::lemma_mod_bound(n, b as int);
            vstd::arithmetic::div_mod::lemma_div_pos_is_pos(n, b as int);
            assert(q == -(n / (b as int)));
            assert(r == -(n % (b as int)));
            assert(a == q * b + r) by (nonlinear_arith)
                requires
                    n == b * (n / (b as int)) + n % (b as int),
                    q == -(n / (b as int)),
                    r == -(n % (b as int)),
                    a == -n,
            ;
            if r < 0 {
                assert(a == (q - 1) * b + (r + b)) by (nonlinear_arith)
                    requires
                        a == q * b + r,
                ;
                assert(q - 1 >= i128::MIN) by (nonlinear_arith)
                    requires
                        a == q * b + r,
                        -b < r < 0,
                        q <= 0,
                        a >= i128::MIN,
                ;
                vstd::arithmetic::div_mod::lemma_fundamental_div_mod_converse(
                    a as int,
                    b as int,
                    q - 1,
                    r + b,
                );
            } else {
                vstd::arithmetic::div_mod::lemma_fundamental_div_mod_converse(
                    a as int,
                    b as int,
                    q as int,
                    r as int,
                );
            }
        }
    }
    if r < 0 {
        q - 1
    } else {
        q
    }
}

/// Whether `r` is the square root of `n`, rounded down.
pub open spec fn is_sqrt(n: int, r: int) -> bool {
    r >= 0 && r * r <= n < (r + 1) * (r + 1)
}

/// The square root of `n`, rounded down.
pub open spec fn sqrt_floor(n: int) -> int {
    choose|r: int| is_sqrt(n, r)
}

/// A number has at most one rounded-down square root.
pub proof fn lemma_sqrt_unique(n: int, r: int)
    requires
        is_sqrt(n, r),
    ensures
        sqrt_floor(n) == r,
{
    let s = sqrt_floor(n);
    assert(is_sqrt(n, s));
    assert(s == r) by (nonlinear_arith)
        requires
            r >= 0,
            s >= 0,
            r * r <= n < (r + 1) * (r + 1),
            s * s <= n < (s + 1) * (s + 1),
    ;
}

/// The square root of `n`, rounded down.
pub fn isqrt(n: u128) -> (r: u64)
    ensures
        is_sqrt(n as int, r as int),
        r == sqrt_floor(n as int),
{
    let mut lo: u128 = 0;
    let mut hi: u128 = 0x1_0000_0000_0000_0000;
    assert(n < hi * hi) by (nonlinear_arith)
        requires
            hi == 0x1_0000_0000_0000_0000,
            n <= 0xffff_ffff_ffff_ffff_ffff_ffff_ffff_ffff,
    ;
    while hi - lo > 1
        invariant
            lo < hi <= 0x1_0000_0000_0000_0000,
            lo * lo <= n < hi * hi,
        decreases hi - lo,
    {
        let mid: u128 = lo + (hi - lo) / 2;
        assert(mid * mid <= 0xffff_ffff_ffff_ffff * 0xffff_ffff_ffff_ffff) by (nonlinear_arith)
            requires
                0 <= mid <= 0xffff_ffff_ffff_ffff,
        ;
        if mid * mid <= n {
            lo = mid;
        } else {
            hi = mid;
        }
    }
    proof {
        assert(hi == lo + 1);
        lemma_sqrt_unique(n as int, lo as int);
    }
    lo as u64
}

/// Division that rounds towards zero, for a positive divisor.
pub open spec fn div_trunc(a: int, b: int) -> int {
    if a >= 0 {
        a / b
    } else {
        -((-a) / b)
    }
}

/// A thousand times the length of the vector `(x, y, z)`, rounded down.
pub open spec fn length_milli(x: int, y: int, z: int) -> int {
    sqrt_floor((sq(x) + sq(y) + sq(z)) * 1_000_000)
}

/// The vector of length one, in thousandths, that points the way of
/// `(x, y, z)`. Each component is rounded towards zero. The zero vector has
/// no direction and stays zero.
pub open spec fn unit_of(x: int, y: int, z: int) -> Vec3i {
    if x == 0 && y == 0 && z == 0 {
        Vec3i { x: 0, y: 0, z: 0 }
    } else {
        Vec3i {
            x: div_trunc(x * 1_000_000, length_milli(x, y, z)) as i32,
            y: div_trunc(y * 1_000_000, length_milli(x, y, z)) as i32,
            z: div_trunc(z * 1_000_000, length_milli(x, y, z)) as i32,
        }
    }
}

/// Whether no component of `v` is further from zero than `bound`.
pub open spec fn within(v: Vec3i, bound: int) -> bool {
    &&& -bound <= v.x <= bound
    &&& -bound <= v.y <= bound
    &&& -bound <= v.z <= bound
}

/// The length of a vector is at least the size of each of its components.
proof fn lemma_length_covers(a: int, n: int, len: int)
    requires
        is_sqrt(n * 1_000_000, len),
        0 <= sq(a) <= n,
    ensures
        len >= 1000 * a,
        len >= -1000 * a,
        (a != 0) ==> len >= 1000,
{
    assert(len >= 1000 * a && len >= -1000 * a) by (nonlinear_arith)
        requires
            len >= 0,
            n * 1_000_000 < (len + 1) * (len + 1),
            a * a <= n,
    ;
}

/// A component divided by the length is at most one.
proof fn lemma_component_bounded(a: int, len: int)
    requires
        len >= 1000 * a,
        len >= -1000 * a,
        len >= 1000,
    ensures
        -1000 <= div_trunc(a * 1_000_000, len) <= 1000,
{
    let m = if a >= 0 {
        a
    } else {
        -a
    };
    let q = (m * 1_000_000) / len;
    vstd::arithmetic::div_mod::lemma_fundamental_div_mod(m * 1_000_000, len);
    vstd::arithmetic::div_mod::lemma_mod_bound(m * 1_000_000, len);
    assert(0 <= q <= 1000) by (nonlinear_arith)
        requires
            m * 1_000_000 == len * q + (m * 1_000_000) % len,
            0 <= (m * 1_000_000) % len < len,
            len >= 1000 * m,
            len >= 1000,
            m >= 0,
    ;
}

/// The unit vector of `(x, y, z)`, which may be a sum of two vectors.
pub fn unit(x: i64, y: i64, z: i64) -> (v: Vec3i)
    requires
        -0x1_0000_0000 <= x <= 0x1_0000_0000,
        -0x1_0000_0000 <= y <= 0x1_0000_0000,
        -0x1_0000_0000 <= z <= 0x1_0000_0000,
    ensures
        v == unit_of(x as int, y as int, z as int),
        within(v, 1000),
{
    if x == 0 && y == 0 && z == 0 {
        return Vec3i { x: 0, y: 0, z: 0 };
    }
    assert(0 <= sq(x as int) <= 0x1_0000_0000 * 0x1_0000_0000 && 0 <= sq(y as int) <= 0x1_0000_0000
        * 0x1_0000_0000 && 0 <= sq(z as int) <= 0x1_0000_0000 * 0x1_0000_0000)
        by (nonlinear_arith)
        requires
            -0x1_0000_0000 <= x <= 0x1_0000_0000,
            -0x1_0000_0000 <= y <= 0x1_0000_0000,
            -0x1_0000_0000 <= z <= 0x1_0000_0000,
    ;
    let xx: u128 = ((x as i128) * (x as i128)) as u128;
    let yy: u128 = ((y as i128) * (y as i128)) as u128;
    let zz: u128 = ((z as i128) * (z as i128)) as u128;
    let n: u128 = xx + yy + zz;
    let len: u64 = isqrt(n * 1_000_000);
    proof {
        assert(n == sq(x as int) + sq(y as int) + sq(z as int));
        lemma_length_covers(x as int, n as int, len as int);
        lemma_length_covers(y as int, n as int, len as int);
        lemma_length_covers(z as int, n as int, len as int);
        lemma_component_bounded(x as int, len as int);
        lemma_component_bounded(y as int, len as int);
        lemma_component_bounded(z as int, len as int);
    }
    let l: i128 = len as i128;
    Vec3i {
        x: (((x as i128) * 1_000_000) / l) as i32,
        y: (((y as i128) * 1_000_000) / l) as i32,
        z: (((z as i128) * 1_000_000) / l) as i32,
    }
}

impl Vec3i {
    pub open spec fn is_zero_spec(&self) -> bool {
        self.x == 0 && self.y == 0 && self.z == 0
    }

    pub fn new(x: i32, y: i32, z: i32) -> (v: Vec3i)
        ensures
            v == (Vec3i { x, y, z }),
    {
        Vec3i { x, y, z }
    }

    /// The origin.
    pub fn zero() -> (v: Vec3i)
        ensures
            v == (Vec3i { x: 0, y: 0, z: 0 }),
    {
        Vec3i { x: 0, y: 0, z: 0 }
    }

    #[verifier::when_used_as_spec(is_zero_spec)]
    pub fn is_zero(&self) -> (b: bool)
        ensures
            b == self.is_zero_spec(),
    {
        self.x == 0 && self.y == 0 && self.z == 0
    }

    /// The vector of length one, in thousandths, that points the same way.
    pub open spec fn normalized(&self) -> Vec3i {
        unit_of(self.x as int, self.y as int, self.z as int)
    }

    /// Scales the vector to length one, in thousandths. The zero vector
    /// stays zero.
    pub fn normalize(&self) -> (v: Vec3i)
        ensures
            v == self.normalized(),
            within(v, 1000),
    {
        unit(self.x as i64, self.y as i64, self.z as i64)
    }

    /// The squared distance to `other`, over all three axes.
    pub fn dist2(&self, other: &Vec3i) -> (d: u128)
        ensures
            d == dist2_spec(*self, *other),
    {
        let dx: u64 = sq_diff(self.x, other.x);
        let dy: u64 = sq_diff(self.y, other.y);
        let dz: u64 = sq_diff(self.z, other.z);
        dx as u128 + dy as u128 + dz as u128
    }
}

impl Vec2u {
    pub fn new(x: u32, y: u32) -> (v: Vec2u)
        ensures
            v == (Vec2u { x, y }),
    {
        Vec2u { x, y }
    }

    /// The scale that changes nothing: one whole [`UNIT`] on both axes.
    pub fn one() -> (v: Vec2u)
        ensures
            v == (Vec2u { x: 1000, y: 1000 }),
    {
        Vec2u { x: 1000, y: 1000 }
    }
}

} // verus!
