//! Lane-wise vector operations on four-lane integer vectors.
//!
//! Every quantity of the renderer is an integer. Positions and directions are
//! points of a lattice; normals, colours and weights are fixed-point numbers
//! with sixteen fractional bits, so that the lane value `ONE` stands for 1.

use vstd::prelude::*;

verus! {

/// The fixed-point representation of the number one.
pub const ONE: i64 = 65536;

/// Largest lane magnitude for which products of two lanes can be summed in 64 bits.
pub const SMALL_MAX: i64 = 0x4000_0000;

/// Largest lane magnitude that lengths and normalisation accept.
pub const WIDE_MAX: i64 = 0x4000_0000_0000;

/// Largest coordinate magnitude of a lattice point: vertex positions, ray
/// origins and ray directions stay within it, so that every intersection is
/// computed exactly in 128 bits.
pub const LATTICE_MAX: i64 = 0x4_0000;

/// Four integer lanes. Three-dimensional data uses the first three lanes and
/// keeps the fourth at zero; two-dimensional data repeats its pair of lanes.
#[derive(Copy, Clone, Debug, PartialEq, Eq, Structural)]
pub struct Vec4(pub i64, pub i64, pub i64, pub i64);

/// A pair `(a, b)` held as `Vec4(a, b, a, b)`.
pub type Vec2 = Vec4;

/// A row-major 2x2 matrix `[[m0, m1], [m2, m3]]`.
pub type Mat2x2 = Vec4;

/// The three principal axis pairs onto which a triangle can be projected.
#[derive(Copy, Clone, Debug, PartialEq, Eq, Structural)]
pub enum Plane {
    XY,
    YZ,
    XZ,
}

/// The absolute value of `x`.
pub open spec fn magnitude(x: int) -> int {
    if x < 0 {
        -x
    } else {
        x
    }
}

/// Every lane of `v` lies within `-m ..= m`.
pub open spec fn fits(v: Vec4, m: int) -> bool {
    &&& -m <= v.0 <= m
    &&& -m <= v.1 <= m
    &&& -m <= v.2 <= m
    &&& -m <= v.3 <= m
}

/// `v` is a point or direction of the lattice: three bounded lanes and a zero fourth lane.
pub open spec fn in_lattice(v: Vec4) -> bool {
    &&& fits(v, LATTICE_MAX as int)
    &&& v.3 == 0
}

/// The lane-wise sum of two vectors.
pub open spec fn add_spec(u: Vec4, v: Vec4) -> (int, int, int, int) {
    (u.0 + v.0, u.1 + v.1, u.2 + v.2, u.3 + v.3)
}

/// The lane-wise difference of two vectors.
pub open spec fn sub_spec(u: Vec4, v: Vec4) -> (int, int, int, int) {
    (u.0 - v.0, u.1 - v.1, u.2 - v.2, u.3 - v.3)
}

/// The four lanes of a vector as integers.
pub open spec fn lanes(v: Vec4) -> (int, int, int, int) {
    (v.0 as int, v.1 as int, v.2 as int, v.3 as int)
}

/// The vector with the given lanes.
pub open spec fn v_of(l: (int, int, int, int)) -> Vec4 {
    Vec4(l.0 as i64, l.1 as i64, l.2 as i64, l.3 as i64)
}

/// The sum of the squares of the four lanes.
pub open spec fn norm2(v: Vec4) -> int {
    v.0 * v.0 + v.1 * v.1 + v.2 * v.2 + v.3 * v.3
}

/// The sum of the lane-wise products.
pub open spec fn dot_spec(u: Vec4, v: Vec4) -> int {
    u.0 * v.0 + u.1 * v.1 + u.2 * v.2 + u.3 * v.3
}

/// The cross product of the first three lanes; the fourth lane is zero.
pub open spec fn cross_spec(u: Vec4, v: Vec4) -> (int, int, int, int) {
    (u.1 * v.2 - u.2 * v.1, u.2 * v.0 - u.0 * v.2, u.0 * v.1 - u.1 * v.0, 0)
}

/// A product of two fixed-point numbers brought back to the fixed-point
/// scale: divided by `ONE`, rounded down.
pub open spec fn unscale(x: int) -> int {
    x / (ONE as int)
}

/// `r` is the integer square root of `s`, rounded down.
pub open spec fn is_sqrt(s: int, r: int) -> bool {
    &&& 0 <= r
    &&& r * r <= s
    &&& s < (r + 1) * (r + 1)
}

/// The integer square root of `s`, rounded down.
pub open spec fn isqrt_spec(s: int) -> int {
    choose|r: int| is_sqrt(s, r)
}

/// At most one integer is the rounded-down square root of `s`.
pub proof fn lemma_sqrt_unique(s: int, a: int, b: int)
    requires
        is_sqrt(s, a),
        is_sqrt(s, b),
    ensures
        a == b,
{
    if a < b {
        lemma_square_monotone(a + 1, b);
    }
    if b < a {
        lemma_square_monotone(b + 1, a);
    }
}

/// Whatever is a rounded-down square root of `s` is `isqrt_spec(s)`.
pub proof fn lemma_sqrt_is(s: int, r: int)
    requires
        is_sqrt(s, r),
    ensures
        r == isqrt_spec(s),
{
    lemma_sqrt_unique(s, r, isqrt_spec(s));
}

/// The length of `v`, rounded down.
pub open spec fn len_spec(v: Vec4) -> int {
    isqrt_spec(norm2(v))
}

/// `v` scaled to fixed-point unit length, lane by lane.
pub open spec fn normalize_spec(v: Vec4) -> (int, int, int, int) {
    (
        unit_lane(v.0 as int, len_spec(v)),
        unit_lane(v.1 as int, len_spec(v)),
        unit_lane(v.2 as int, len_spec(v)),
        unit_lane(v.3 as int, len_spec(v)),
    )
}

/// Lane `x` of a vector of length `len`, scaled to the fixed-point unit and rounded down.
pub open spec fn unit_lane(x: int, len: int) -> int {
    if len > 0 {
        (x * ONE) / len
    } else {
        0
    }
}

/// The two lanes of `v` that lie in the plane `p`, as a pair.
pub open spec fn proj_spec(p: Plane, v: Vec4) -> Vec4 {
    match p {
        Plane::XY => Vec4(v.0, v.1, v.0, v.1),
        Plane::YZ => Vec4(v.1, v.2, v.1, v.2),
        Plane::XZ => Vec4(v.0, v.2, v.0, v.2),
    }
}

/// The signed area of the parallelogram that `v1` and `v2` span after projection onto `p`.
pub open spec fn signed_area(p: Plane, v1: Vec4, v2: Vec4) -> int {
    proj_spec(p, v1).0 * proj_spec(p, v2).1 - proj_spec(p, v1).1 * proj_spec(p, v2).0
}

/// The product of two bounded numbers is bounded by the product of their bounds.
pub proof fn lemma_mul_bound(a: int, b: int, ma: int, mb: int)
    by (nonlinear_arith)
    requires
        -ma <= a <= ma,
        -mb <= b <= mb,
    ensures
        -(ma * mb) <= a * b <= ma * mb,
{
}

/// Squaring keeps the order of numbers that are not negative.
pub proof fn lemma_square_monotone(a: int, b: int)
    by (nonlinear_arith)
    requires
        0 <= a <= b,
    ensures
        a * a <= b * b,
{
}

/// The product of two bounded 128-bit integers, with its bound.
pub(crate) fn mul_wide(a: i128, b: i128, Ghost(ma): Ghost<int>, Ghost(mb): Ghost<int>) -> (r: i128)
    requires
        -ma <= a <= ma,
        -mb <= b <= mb,
        ma * mb <= i128::MAX,
    ensures
        r == a * b,
        -(ma * mb) <= r <= ma * mb,
{
    proof {
        lemma_mul_bound(a as int, b as int, ma, mb);
    }
    a * b
}

/// Division rounded towards negative infinity, for a positive divisor.
pub fn div_floor(a: i128, b: i128) -> (r: i128)
    requires
        b > 0,
        a > i128::MIN,
    ensures
        r == a / b,
{
    if a >= 0 {
        a / b
    } else {
        let n: i128 = -a;
        let q: i128 = n / b;
        let m: i128 = n % b;
        proof {
            vstd::arithmetic::div_mod::lemma_fundamental_div_mod(n as int, b as int);
            assert((-(q as int)) * b == -(b * q)) by (nonlinear_arith);
            assert((-(q as int) - 1) * b == -(b * q) - b) by (nonlinear_arith);
            if m == 0 {
                vstd::arithmetic::div_mod::lemma_fundamental_div_mod_converse(
                    a as int,
                    b as int,
                    -(q as int),
                    0,
                );
            } else {
                vstd::arithmetic::div_mod::lemma_fundamental_div_mod_converse(
                    a as int,
                    b as int,
                    -(q as int) - 1,
                    b - m,
                );
            }
        }
        if m == 0 {
            -q
        } else {
            -q - 1
        }
    }
}

/// The integer square root of `s`, rounded down.
pub fn isqrt(s: i128) -> (r: i128)
    requires
        0 <= s <= 0x1_0000_0000_0000_0000_0000_0000,
    ensures
        r == isqrt_spec(s as int),
        is_sqrt(s as int, r as int),
        r <= 0x1_0000_0000_0000,
{
    let mut lo: i128 = 0;
    let mut hi: i128 = 0x1_0000_0000_0001;
    proof {
        assert(hi * hi > s) by (nonlinear_arith)
            requires
                hi == 0x1_0000_0000_0001,
                s <= 0x1_0000_0000_0000_0000_0000_0000,
        ;
    }
    while hi - lo > 1
        invariant
            0 <= lo < hi <= 0x1_0000_0000_0001,
            lo * lo <= s,
            s < hi * hi,
        decreases hi - lo,
    {
        let mid: i128 = lo + (hi - lo) / 2;
        let sq: i128 = mul_wide(
            mid,
            mid,
            Ghost(0x1_0000_0000_0001),
            Ghost(0x1_0000_0000_0001),
        );
        if sq <= s {
            lo = mid;
        } else {
            hi = mid;
        }
    }
    proof {
        lemma_sqrt_is(s as int, lo as int);
    }
    lo
}

/// Whether every lane of `v` lies within `-m ..= m`.
pub fn within_lanes(v: Vec4, m: i64) -> (r: bool)
    requires
        m >= 0,
    ensures
        r == fits(v, m as int),
{
    -m <= v.0 && v.0 <= m && -m <= v.1 && v.1 <= m && -m <= v.2 && v.2 <= m && -m <= v.3 && v.3
        <= m
}

/// Whether `v` is a point or direction of the lattice.
pub fn on_lattice(v: Vec4) -> (r: bool)
    ensures
        r == in_lattice(v),
{
    within_lanes(v, LATTICE_MAX) && v.3 == 0
}

/// The vector whose four lanes all hold `x`.
#[inline]
pub fn scalar(x: i64) -> (r: Vec4)
    ensures
        r == Vec4(x, x, x, x),
{
    Vec4(x, x, x, x)
}

/// The vector of four zero lanes.
#[inline]
pub fn zero() -> (r: Vec4)
    ensures
        r == Vec4(0, 0, 0, 0),
{
    scalar(0)
}

/// The vector whose four lanes hold the fixed-point one.
#[inline]
pub fn one() -> (r: Vec4)
    ensures
        r == Vec4(ONE, ONE, ONE, ONE),
{
    scalar(ONE)
}

/// The lane-wise sum of two vectors.
#[inline]
pub fn v_add_v(u: Vec4, v: Vec4) -> (r: Vec4)
    requires
        fits(u, SMALL_MAX as int),
        fits(v, SMALL_MAX as int),
    ensures
        lanes(r) == add_spec(u, v),
{
    Vec4(u.0 + v.0, u.1 + v.1, u.2 + v.2, u.3 + v.3)
}

/// The lane-wise difference of two vectors.
#[inline]
pub fn v_sub_v(u: Vec4, v: Vec4) -> (r: Vec4)
    requires
        fits(u, SMALL_MAX as int),
        fits(v, SMALL_MAX as int),
    ensures
        lanes(r) == sub_spec(u, v),
{
    Vec4(u.0 - v.0, u.1 - v.1, u.2 - v.2, u.3 - v.3)
}

/// The Euclidean length of `v`, rounded down.
#[inline]
pub fn v_len(v: Vec4) -> (r: i64)
    requires
        fits(v, WIDE_MAX as int),
    ensures
        r == len_spec(v),
        is_sqrt(norm2(v), r as int),
{
    let m = Ghost(WIDE_MAX as int);
    let s0: i128 = mul_wide(v.0 as i128, v.0 as i128, m, m);
    let s1: i128 = mul_wide(v.1 as i128, v.1 as i128, m, m);
    let s2: i128 = mul_wide(v.2 as i128, v.2 as i128, m, m);
    let s3: i128 = mul_wide(v.3 as i128, v.3 as i128, m, m);
    proof {
        assert(v.0 * v.0 >= 0) by (nonlinear_arith);
        assert(v.1 * v.1 >= 0) by (nonlinear_arith);
        assert(v.2 * v.2 >= 0) by (nonlinear_arith);
        assert(v.3 * v.3 >= 0) by (nonlinear_arith);
    }
    let r: i128 = isqrt(s0 + s1 + s2 + s3);
    r as i64
}

/// `v` scaled to fixed-point unit length: each lane times `ONE` divided by the
/// length of `v`, rounded down. The zero vector, which has no direction, is
/// returned unchanged.
#[inline]
pub fn v_normalize(v: Vec4) -> (r: Vec4)
    requires
        fits(v, WIDE_MAX as int),
    ensures
        lanes(r) == normalize_spec(v),
        fits(r, 2 * ONE),
{
    let n: i64 = v_len(v);
    proof {
        assert(v.0 * v.0 >= 0) by (nonlinear_arith);
        assert(v.1 * v.1 >= 0) by (nonlinear_arith);
        assert(v.2 * v.2 >= 0) by (nonlinear_arith);
        assert(v.3 * v.3 >= 0) by (nonlinear_arith);
    }
    if n == 0 {
        proof {
            assert(v.0 * v.0 >= 0) by (nonlinear_arith);
            assert(v.1 * v.1 >= 0) by (nonlinear_arith);
            assert(v.2 * v.2 >= 0) by (nonlinear_arith);
            assert(v.3 * v.3 >= 0) by (nonlinear_arith);
            assert(v.0 != 0 ==> v.0 * v.0 >= 1) by (nonlinear_arith);
            assert(v.1 != 0 ==> v.1 * v.1 >= 1) by (nonlinear_arith);
            assert(v.2 != 0 ==> v.2 * v.2 >= 1) by (nonlinear_arith);
            assert(v.3 != 0 ==> v.3 * v.3 >= 1) by (nonlinear_arith);
            assert((n + 1) * (n + 1) == 1) by (nonlinear_arith)
                requires
                    n == 0,
            ;
            assert(norm2(v) < 1);
            assert(lanes(v) == (0int, 0int, 0int, 0int));
        }
        return v;
    }
    let r0: i64 = unit(v.0, n, Ghost(norm2(v)));
    let r1: i64 = unit(v.1, n, Ghost(norm2(v)));
    let r2: i64 = unit(v.2, n, Ghost(norm2(v)));
    let r3: i64 = unit(v.3, n, Ghost(norm2(v)));
    Vec4(r0, r1, r2, r3)
}

fn unit(x: i64, len: i64, Ghost(s): Ghost<int>) -> (r: i64)
    requires
        -WIDE_MAX <= x <= WIDE_MAX,
        len > 0,
        is_sqrt(s, len as int),
        x * x <= s,
    ensures
        r == unit_lane(x as int, len as int),
        -2 * ONE <= r <= 2 * ONE,
{
    let num: i128 = (x as i128) * 65536;
    let q: i128 = div_floor(num, len as i128);
    proof {
        let l = len as int;
        let xi = x as int;
        // |x| < len + 1, hence |x| <= len
        assert(-l <= xi <= l) by (nonlinear_arith)
            requires
                xi * xi <= s,
                s < (l + 1) * (l + 1),
                l > 0,
        ;
        assert(-2 * ONE <= (xi * ONE) / l <= 2 * ONE) by (nonlinear_arith)
            requires
                -l <= xi <= l,
                l > 0,
                ONE == 65536,
        ;
    }
    q as i64
}

/// A vector of products of fixed-point numbers brought back to the fixed-point
/// scale: each lane divided by `ONE`, rounded down.
#[inline]
pub fn v_unscale(v: Vec4) -> (r: Vec4)
    ensures
        lanes(r) == (unscale(v.0 as int), unscale(v.1 as int), unscale(v.2 as int), unscale(v.3 as int)),
{
    Vec4(
        div_floor(v.0 as i128, 65536) as i64,
        div_floor(v.1 as i128, 65536) as i64,
        div_floor(v.2 as i128, 65536) as i64,
        div_floor(v.3 as i128, 65536) as i64,
    )
}

/// The cross product of the first three lanes of `u` and `v`.
#[inline]
pub fn v_cross_v(u: Vec4, v: Vec4) -> (r: Vec4)
    requires
        fits(u, SMALL_MAX as int),
        fits(v, SMALL_MAX as int),
    ensures
        lanes(r) == cross_spec(u, v),
{
    let m = Ghost(SMALL_MAX as int);
    let a: i128 = mul_wide(u.1 as i128, v.2 as i128, m, m) - mul_wide(
        u.2 as i128,
        v.1 as i128,
        m,
        m,
    );
    let b: i128 = mul_wide(u.2 as i128, v.0 as i128, m, m) - mul_wide(
        u.0 as i128,
        v.2 as i128,
        m,
        m,
    );
    let c: i128 = mul_wide(u.0 as i128, v.1 as i128, m, m) - mul_wide(
        u.1 as i128,
        v.0 as i128,
        m,
        m,
    );
    Vec4(a as i64, b as i64, c as i64, 0)
}

/// The dot product over all four lanes.
#[inline]
pub fn v_dot_v(u: Vec4, v: Vec4) -> (r: i64)
    requires
        fits(u, SMALL_MAX as int),
        fits(v, SMALL_MAX as int),
    ensures
        r == dot_spec(u, v),
{
    let m = Ghost(SMALL_MAX as int);
    let a: i128 = mul_wide(u.0 as i128, v.0 as i128, m, m);
    let b: i128 = mul_wide(u.1 as i128, v.1 as i128, m, m);
    let c: i128 = mul_wide(u.2 as i128, v.2 as i128, m, m);
    let d: i128 = mul_wide(u.3 as i128, v.3 as i128, m, m);
    (a + b + c + d) as i64
}

/// The product of the matrix `m` with the pair held in `v`.
#[inline]
pub fn m_mul_v(m: Mat2x2, v: Vec2) -> (r: Vec2)
    requires
        fits(m, SMALL_MAX as int),
        fits(v, SMALL_MAX as int),
    ensures
        r.0 == m.0 * v.0 + m.1 * v.1,
        r.1 == m.2 * v.2 + m.3 * v.3,
        r.2 == r.0,
        r.3 == r.1,
{
    let g = Ghost(SMALL_MAX as int);
    let a: i128 = mul_wide(m.0 as i128, v.0 as i128, g, g);
    let b: i128 = mul_wide(m.1 as i128, v.1 as i128, g, g);
    let c: i128 = mul_wide(m.2 as i128, v.2 as i128, g, g);
    let d: i128 = mul_wide(m.3 as i128, v.3 as i128, g, g);
    let p: i64 = (a + b) as i64;
    let q: i64 = (c + d) as i64;
    Vec4(p, q, p, q)
}

impl Plane {
    /// The two lanes of `v` that lie in this plane, as a pair.
    pub fn proj(&self, v: Vec4) -> (r: Vec2)
        ensures
            r == proj_spec(*self, v),
    {
        match *self {
            Plane::XY => Vec4(v.0, v.1, v.0, v.1),
            Plane::YZ => Vec4(v.1, v.2, v.1, v.2),
            Plane::XZ => Vec4(v.0, v.2, v.0, v.2),
        }
    }

    /// The area of the parallelogram that `v1` and `v2` span after projection
    /// onto this plane.
    pub fn area(&self, v1: Vec4, v2: Vec4) -> (r: i64)
        requires
            fits(v1, SMALL_MAX as int),
            fits(v2, SMALL_MAX as int),
        ensures
            r == magnitude(signed_area(*self, v1, v2)),
    {
        let u1 = self.proj(v1);
        let u2 = self.proj(v2);
        let g = Ghost(SMALL_MAX as int);
        let d: i128 = mul_wide(u1.0 as i128, u2.1 as i128, g, g) - mul_wide(
            u1.1 as i128,
            u2.0 as i128,
            g,
            g,
        );
        if d < 0 {
            (-d) as i64
        } else {
            d as i64
        }
    }
}

} // verus!
