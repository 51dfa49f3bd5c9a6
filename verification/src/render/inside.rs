//! Why a point that the ray/triangle test accepts lies between the vertices
//! of its triangle on every axis: the facts that let a spatial index discard
//! a triangle by the coordinates of its vertices alone.

use vstd::prelude::*;
use crate::geom::fast::{lemma_mul_bound, magnitude, Plane};
use crate::geom::kd::{below, coord, on_large_side, on_small_side, value_of, Partition};
use crate::geom::scene::{edge, normal_spec, Face};
use crate::render::trace::{
    bary_den, bary_num0, bary_num1, hit_denom, hit_dist, hit_numer, hit_offset, hit_pair, hits,
    Ratio, Ray, DIST_DEN_MAX, DIST_NUM_MAX,
};

verus! {

/// The position on the axis of `p` of the point at distance `t` along the
/// ray, multiplied by the denominator of `t`.
pub open spec fn ray_at(r: Ray, p: Partition, t: Ratio) -> int {
    coord(p, r.p0) * t.den + coord(p, r.v) * t.num
}

/// For a vector `r` orthogonal to the cross product of `a` and `b`, the pair
/// that Cramer's rule makes of its first two coordinates reproduces all three:
/// with `s = (b1 r0 - b0 r1, a0 r1 - a1 r0)` and `det = a0 b1 - a1 b0`,
/// `s.0 * a + s.1 * b == det * r` on every coordinate.
pub proof fn lemma_cramer(
    a0: int,
    a1: int,
    a2: int,
    b0: int,
    b1: int,
    b2: int,
    r0: int,
    r1: int,
    r2: int,
)
    requires
        (a1 * b2 - a2 * b1) * r0 + (a2 * b0 - a0 * b2) * r1 + (a0 * b1 - a1 * b0) * r2 == 0,
    ensures
        (b1 * r0 - b0 * r1) * a0 + (a0 * r1 - a1 * r0) * b0 == (a0 * b1 - a1 * b0) * r0,
        (b1 * r0 - b0 * r1) * a1 + (a0 * r1 - a1 * r0) * b1 == (a0 * b1 - a1 * b0) * r1,
        (b1 * r0 - b0 * r1) * a2 + (a0 * r1 - a1 * r0) * b2 == (a0 * b1 - a1 * b0) * r2,
{
    assert((b1 * r0 - b0 * r1) * a0 + (a0 * r1 - a1 * r0) * b0 == (a0 * b1 - a1 * b0) * r0)
        by (nonlinear_arith);
    assert((b1 * r0 - b0 * r1) * a1 + (a0 * r1 - a1 * r0) * b1 == (a0 * b1 - a1 * b0) * r1)
        by (nonlinear_arith);
    let x1 = (b1 * a2) * r0;
    let x2 = (b0 * a2) * r1;
    let x3 = (a0 * b2) * r1;
    let x4 = (a1 * b2) * r0;
    assert((b1 * r0 - b0 * r1) * a2 == x1 - x2) by (nonlinear_arith)
        requires
            x1 == (b1 * a2) * r0,
            x2 == (b0 * a2) * r1,
    ;
    assert((a0 * r1 - a1 * r0) * b2 == x3 - x4) by (nonlinear_arith)
        requires
            x3 == (a0 * b2) * r1,
            x4 == (a1 * b2) * r0,
    ;
    assert((a1 * b2 - a2 * b1) * r0 == x4 - x1) by (nonlinear_arith)
        requires
            x1 == (b1 * a2) * r0,
            x4 == (a1 * b2) * r0,
    ;
    assert((a2 * b0 - a0 * b2) * r1 == x2 - x3) by (nonlinear_arith)
        requires
            x2 == (b0 * a2) * r1,
            x3 == (a0 * b2) * r1,
    ;
}

/// A weighted mean of three numbers lies between the least and the greatest of them.
pub proof fn lemma_mean_between(
    q0: int,
    q1: int,
    w: int,
    delta: int,
    d: int,
    v0: int,
    v1: int,
    v2: int,
    rk: int,
    s: int,
)
    requires
        0 <= q0,
        0 <= q1,
        q0 + q1 <= w,
        w == delta * d,
        delta > 0,
        d > 0,
        q0 * (v0 - v2) + q1 * (v1 - v2) == delta * rk,
    ensures
        v0 >= s && v1 >= s && v2 >= s ==> rk + v2 * d >= s * d,
        v0 < s && v1 < s && v2 < s ==> rk + v2 * d < s * d,
{
    let x = rk + v2 * d;
    let q2 = w - q0 - q1;
    assert(delta * x == delta * rk + w * v2) by (nonlinear_arith)
        requires
            x == rk + v2 * d,
            w == delta * d,
    ;
    assert(q0 * (v0 - v2) == q0 * v0 - q0 * v2) by (nonlinear_arith);
    assert(q1 * (v1 - v2) == q1 * v1 - q1 * v2) by (nonlinear_arith);
    assert(q2 * v2 == w * v2 - q0 * v2 - q1 * v2) by (nonlinear_arith)
        requires
            q2 == w - q0 - q1,
    ;
    assert(delta * x == q0 * v0 + q1 * v1 + q2 * v2);
    if v0 >= s && v1 >= s && v2 >= s {
        assert(q0 * v0 + q1 * v1 + q2 * v2 >= w * s) by (nonlinear_arith)
            requires
                q0 >= 0,
                q1 >= 0,
                q2 >= 0,
                q2 == w - q0 - q1,
                v0 >= s,
                v1 >= s,
                v2 >= s,
        ;
        assert(x >= s * d) by (nonlinear_arith)
            requires
                delta * x >= w * s,
                w == delta * d,
                delta > 0,
        ;
    }
    if v0 < s && v1 < s && v2 < s {
        assert(q0 * v0 + q1 * v1 + q2 * v2 <= w * (s - 1)) by (nonlinear_arith)
            requires
                q0 >= 0,
                q1 >= 0,
                q2 >= 0,
                q2 == w - q0 - q1,
                v0 <= s - 1,
                v1 <= s - 1,
                v2 <= s - 1,
        ;
        assert(x < s * d) by (nonlinear_arith)
            requires
                delta * x <= w * (s - 1),
                w == delta * d,
                delta > 0,
                d > 0,
        ;
    }
}

/// Cramer's rule in the form in which a face holds it: with the numerators
/// `t` of the inverse of `((ai, bi), (aj, bj))` and its determinant `det`, the
/// pair `s = t * (ri, rj)` satisfies `s.0 * a + s.1 * b == det * r` on all
/// three coordinates of a vector `r` orthogonal to the cross product.
pub proof fn lemma_plane(
    ai: int,
    aj: int,
    ak: int,
    bi: int,
    bj: int,
    bk: int,
    ri: int,
    rj: int,
    rk: int,
    t: (int, int, int, int),
    det: int,
    s0: int,
    s1: int,
)
    requires
        (aj * bk - ak * bj) * ri + (ak * bi - ai * bk) * rj + (ai * bj - aj * bi) * rk == 0,
        t == (bj, -bi, -aj, ai),
        det == ai * bj - aj * bi,
        s0 == t.0 * ri + t.1 * rj,
        s1 == t.2 * ri + t.3 * rj,
    ensures
        s0 * ai + s1 * bi == det * ri,
        s0 * aj + s1 * bj == det * rj,
        s0 * ak + s1 * bk == det * rk,
{
    lemma_cramer(ai, aj, ak, bi, bj, bk, ri, rj, rk);
    assert(s0 == bj * ri - bi * rj) by (nonlinear_arith)
        requires
            s0 == t.0 * ri + t.1 * rj,
            t.0 == bj,
            t.1 == -bi,
    ;
    assert(s1 == ai * rj - aj * ri) by (nonlinear_arith)
        requires
            s1 == t.2 * ri + t.3 * rj,
            t.2 == -aj,
            t.3 == ai,
    ;
}

/// The quantities of the ray/triangle test stay within the bounds of a distance.
pub proof fn lemma_hit_bounds(r: Ray, f: Face)
    requires
        r.wf(),
        f.wf(),
    ensures
        -DIST_DEN_MAX <= hit_denom(r, f) <= DIST_DEN_MAX,
        -DIST_NUM_MAX <= hit_numer(r, f) <= DIST_NUM_MAX,
        hit_dist(r, f).den == magnitude(hit_denom(r, f)),
        hit_dist(r, f).num == if hit_denom(r, f) < 0 {
            -hit_numer(r, f)
        } else {
            hit_numer(r, f)
        },
{
    crate::geom::scene::lemma_normal_bound(f.vp@);
    let n = normal_spec(f.vp@);
    let o = edge(f.vp[2], r.p0);
    lemma_mul_bound(r.v.0 as int, n.0, 0x4_0000, 0x80_0000_0000);
    lemma_mul_bound(r.v.1 as int, n.1, 0x4_0000, 0x80_0000_0000);
    lemma_mul_bound(r.v.2 as int, n.2, 0x4_0000, 0x80_0000_0000);
    lemma_mul_bound(o.0 as int, n.0, 0x8_0000, 0x80_0000_0000);
    lemma_mul_bound(o.1 as int, n.1, 0x8_0000, 0x80_0000_0000);
    lemma_mul_bound(o.2 as int, n.2, 0x8_0000, 0x80_0000_0000);
}

/// The offset from the third vertex to the meeting point is orthogonal to the normal.
pub proof fn lemma_offset_in_plane(r: Ray, f: Face)
    requires
        r.wf(),
        f.wf(),
    ensures
        normal_spec(f.vp@).0 * hit_offset(r, f).0 + normal_spec(f.vp@).1 * hit_offset(r, f).1
            + normal_spec(f.vp@).2 * hit_offset(r, f).2 == 0,
{
    lemma_hit_bounds(r, f);
    let n = normal_spec(f.vp@);
    let o = edge(r.p0, f.vp[2]);
    let m = edge(f.vp[2], r.p0);
    let d = hit_dist(r, f).den as int;
    let t = hit_dist(r, f).num as int;
    let h = hit_offset(r, f);
    let den = hit_denom(r, f);
    let num = hit_numer(r, f);
    let v0 = r.v.0 as int;
    let v1 = r.v.1 as int;
    let v2 = r.v.2 as int;
    let o0 = o.0 as int;
    let o1 = o.1 as int;
    let o2 = o.2 as int;
    assert(m.0 == -o0 && m.1 == -o1 && m.2 == -o2);
    assert(n.0 * h.0 == -(m.0 * n.0) * d + (v0 * n.0) * t) by (nonlinear_arith)
        requires
            h.0 == o0 * d + v0 * t,
            m.0 == -o0,
    ;
    assert(n.1 * h.1 == -(m.1 * n.1) * d + (v1 * n.1) * t) by (nonlinear_arith)
        requires
            h.1 == o1 * d + v1 * t,
            m.1 == -o1,
    ;
    assert(n.2 * h.2 == -(m.2 * n.2) * d + (v2 * n.2) * t) by (nonlinear_arith)
        requires
            h.2 == o2 * d + v2 * t,
            m.2 == -o2,
    ;
    let x0 = m.0 * n.0;
    let x1 = m.1 * n.1;
    let x2 = m.2 * n.2;
    let y0 = v0 * n.0;
    let y1 = v1 * n.1;
    let y2 = v2 * n.2;
    assert(num == x0 + x1 + x2);
    assert(den == y0 + y1 + y2);
    assert(-x0 * d + y0 * t + (-x1 * d + y1 * t) + (-x2 * d + y2 * t) == den * t - num * d)
        by (nonlinear_arith)
        requires
            num == x0 + x1 + x2,
            den == y0 + y1 + y2,
    ;
    assert(den * t - num * d == 0) by (nonlinear_arith)
        requires
            (d == den && t == num) || (d == -den && t == -num),
    ;
}

/// The barycentric coordinates of the meeting point reproduce its offset
/// from the third vertex on all three axes, not only on the two of the
/// projection plane: `q0 * (v0 - v2) + q1 * (v1 - v2) == |det| * offset`.
pub proof fn lemma_bary_vector(r: Ray, f: Face)
    requires
        r.wf(),
        f.wf(),
    ensures
        bary_num0(r, f) * edge(f.vp[0], f.vp[2]).0 + bary_num1(r, f) * edge(f.vp[1], f.vp[2]).0
            == magnitude(f.det as int) * hit_offset(r, f).0,
        bary_num0(r, f) * edge(f.vp[0], f.vp[2]).1 + bary_num1(r, f) * edge(f.vp[1], f.vp[2]).1
            == magnitude(f.det as int) * hit_offset(r, f).1,
        bary_num0(r, f) * edge(f.vp[0], f.vp[2]).2 + bary_num1(r, f) * edge(f.vp[1], f.vp[2]).2
            == magnitude(f.det as int) * hit_offset(r, f).2,
{
    lemma_offset_in_plane(r, f);
    let a = edge(f.vp[0], f.vp[2]);
    let b = edge(f.vp[1], f.vp[2]);
    let (a0, a1, a2) = (a.0 as int, a.1 as int, a.2 as int);
    let (b0, b1, b2) = (b.0 as int, b.1 as int, b.2 as int);
    let h = hit_offset(r, f);
    let n = normal_spec(f.vp@);
    let t = (f.Tinv.0 as int, f.Tinv.1 as int, f.Tinv.2 as int, f.Tinv.3 as int);
    let det = f.det as int;
    let pr = hit_pair(r, f);
    let s0 = t.0 * pr.0 + t.1 * pr.1;
    let s1 = t.2 * pr.0 + t.3 * pr.1;
    assert(n.0 == a1 * b2 - a2 * b1);
    assert(n.1 == a2 * b0 - a0 * b2);
    assert(n.2 == a0 * b1 - a1 * b0);
    match f.plane {
        Plane::XY => {
            lemma_plane(a0, a1, a2, b0, b1, b2, h.0, h.1, h.2, t, det, s0, s1);
        },
        Plane::YZ => {
            lemma_plane(a1, a2, a0, b1, b2, b0, h.1, h.2, h.0, t, det, s0, s1);
        },
        Plane::XZ => {
            assert((a2 * b1 - a1 * b2) * h.0 == -(n.0 * h.0)) by (nonlinear_arith)
                requires
                    n.0 == a1 * b2 - a2 * b1,
            ;
            assert((a1 * b0 - a0 * b1) * h.2 == -(n.2 * h.2)) by (nonlinear_arith)
                requires
                    n.2 == a0 * b1 - a1 * b0,
            ;
            assert((a0 * b2 - a2 * b0) * h.1 == -(n.1 * h.1)) by (nonlinear_arith)
                requires
                    n.1 == a2 * b0 - a0 * b2,
            ;
            lemma_plane(a0, a2, a1, b0, b2, b1, h.0, h.2, h.1, t, det, s0, s1);
        },
    }
    assert(s0 * a0 + s1 * b0 == det * h.0);
    assert(s0 * a1 + s1 * b1 == det * h.1);
    assert(s0 * a2 + s1 * b2 == det * h.2);
    let q0 = bary_num0(r, f);
    let q1 = bary_num1(r, f);
    let m = magnitude(det);
    assert(q0 * a0 + q1 * b0 == m * h.0 && q0 * a1 + q1 * b1 == m * h.1 && q0 * a2 + q1 * b2 == m
        * h.2) by (nonlinear_arith)
        requires
            s0 * a0 + s1 * b0 == det * h.0,
            s0 * a1 + s1 * b1 == det * h.1,
            s0 * a2 + s1 * b2 == det * h.2,
            (q0 == s0 && q1 == s1 && m == det) || (q0 == -s0 && q1 == -s1 && m == -det),
    ;
}

/// A point in which a ray meets a face lies, on every axis, between the least
/// and the greatest coordinate of the vertices of the face: where it lies
/// strictly below a plane, so does a vertex, and where it does not, neither
/// does some vertex.
pub proof fn lemma_hit_between(r: Ray, f: Face, p: Partition)
    requires
        r.wf(),
        f.wf(),
        hits(r, f),
    ensures
        ray_at(r, p, hit_dist(r, f)) < value_of(p) * hit_dist(r, f).den ==> on_small_side(
            p,
            f.vp@,
        ),
        ray_at(r, p, hit_dist(r, f)) >= value_of(p) * hit_dist(r, f).den ==> on_large_side(
            p,
            f.vp@,
        ),
{
    lemma_hit_bounds(r, f);
    lemma_bary_vector(r, f);
    let d = hit_dist(r, f).den as int;
    let t = hit_dist(r, f).num as int;
    let q0 = bary_num0(r, f);
    let q1 = bary_num1(r, f);
    let w = bary_den(r, f);
    let m = magnitude(f.det as int);
    let h = hit_offset(r, f);
    let s = value_of(p);
    let v0 = coord(p, f.vp[0]);
    let v1 = coord(p, f.vp[1]);
    let v2 = coord(p, f.vp[2]);
    let rk = match p {
        Partition::X(_) => h.0,
        Partition::Y(_) => h.1,
        Partition::Z(_) => h.2,
    };
    let pk = coord(p, r.p0);
    let vk = coord(p, r.v);
    assert(rk == (pk - v2) * d + vk * t);
    assert(rk + v2 * d == pk * d + vk * t) by (nonlinear_arith)
        requires
            rk == (pk - v2) * d + vk * t,
    ;
    assert(q0 * (v0 - v2) + q1 * (v1 - v2) == m * rk);
    lemma_mean_between(q0, q1, w, m, d, v0, v1, v2, rk, s);
}

} // verus!
