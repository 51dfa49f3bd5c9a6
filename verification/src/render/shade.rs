//! The surface model: one diffuse surface under one directional light.
//!
//! The estimator draws its random directions from numbers that the caller
//! supplies with every path, so that one path can be followed twice.

use vstd::prelude::*;
use crate::geom::fast::{
    div_floor, fits, in_lattice, mul_wide, normalize_spec, unscale, v_normalize, v_of, Vec4, ONE,
    WIDE_MAX,
};
use crate::geom::scene::{shadable, Face, Scene};
use crate::render::inside::lemma_hit_bounds;
use crate::render::trace::{
    basis_from_b1, basis_spec, closest, collision_spec, hits, meets_any, Collision, Ratio, Ray,
    Tracer,
};
use crate::util::color::{clamp_spec, mix_spec, Color};

verus! {

/// The random numbers of one bounce of a path, in fixed point.
#[derive(Copy, Clone, Debug, PartialEq, Eq, Structural)]
pub struct Draw {
    /// The coordinates, in the frame of the surface normal, of a direction
    /// drawn over the hemisphere above the surface.
    pub hemi: Vec4,
    /// The offsets of a direction drawn within the disk of the sun from its
    /// centre, along the first and the third vector of the frame of the sun.
    pub sun: Vec4,
}

/// The outcome of one sample of a path.
#[derive(Copy, Clone, Debug)]
pub enum Sample {
    /// The ray left the scene.
    Horizon,
    /// The path was cut off at the greatest depth.
    MaxDepth,
    /// The ray met a face, with the collision and the colour that comes back along the ray.
    Hit(Collision, Color),
}

/// The colour of the sun.
pub open spec fn sun_color() -> Color {
    Color { r: 49152, g: 40632, b: 26870 }
}

/// The light where the sun is hidden.
pub open spec fn ambient() -> Color {
    Color { r: 0, g: 0, b: 0 }
}

/// The greatest depth of a path that the estimator accepts.
pub const DEPTH_MAX: usize = 0x10_0000;

/// The numbers of a draw are fixed-point numbers between minus one and one.
pub open spec fn draw_ok(d: Draw) -> bool {
    &&& fits(d.hemi, ONE as int)
    &&& fits(d.sun, ONE as int)
}

/// One lane of a vector given by its coordinates `c` in the frame `(b0, b1, b2)`.
pub open spec fn combine_lane(b0: int, b1: int, b2: int, c: Vec4) -> int {
    unscale(b0 * c.0 + b1 * c.1 + b2 * c.2)
}

/// The vector with the coordinates `c` in the frame `b`.
pub open spec fn combine_spec(b: Seq<Vec4>, c: Vec4) -> Vec4 {
    Vec4(
        combine_lane(b[0].0 as int, b[1].0 as int, b[2].0 as int, c) as i64,
        combine_lane(b[0].1 as int, b[1].1 as int, b[2].1 as int, c) as i64,
        combine_lane(b[0].2 as int, b[1].2 as int, b[2].2 as int, c) as i64,
        0,
    )
}

/// One lane of the value at barycentric coordinates `q0 / w`, `q1 / w` of a
/// quantity with the values `a0`, `a1`, `a2` at the vertices, rounded down.
pub open spec fn blend_lane(a0: int, a1: int, a2: int, q0: int, q1: int, w: int) -> int {
    (a0 * q0 + a1 * q1 + a2 * (w - q0 - q1)) / w
}

/// The value at the barycentric coordinates of a collision of a quantity
/// given at the three vertices.
pub open spec fn blend_spec(a: Seq<Vec4>, c: Collision) -> Vec4 {
    let (q0, q1, w) = (c.bary[0].num as int, c.bary[1].num as int, c.bary[0].den as int);
    Vec4(
        blend_lane(a[0].0 as int, a[1].0 as int, a[2].0 as int, q0, q1, w) as i64,
        blend_lane(a[0].1 as int, a[1].1 as int, a[2].1 as int, q0, q1, w) as i64,
        blend_lane(a[0].2 as int, a[1].2 as int, a[2].2 as int, q0, q1, w) as i64,
        0,
    )
}

/// The barycentric coordinates of a collision lie in the triangle.
pub open spec fn bary_ok(c: Collision) -> bool {
    &&& c.bary[0].den == c.bary[1].den
    &&& 0 < c.bary[0].den <= 0x3_0000_0000_0000_0000_0000_0000
    &&& 0 <= c.bary[0].num
    &&& 0 <= c.bary[1].num
    &&& c.bary[0].num + c.bary[1].num <= c.bary[0].den
}

/// The cosine weight of a light direction on a surface: the dot product of
/// the shading normal with the direction, limited to the range from zero to one.
pub open spec fn lambert_spec(sn: Vec4, dir: Vec4) -> int {
    clamp_spec(unscale(sn.0 * dir.0 + sn.1 * dir.1 + sn.2 * dir.2), 0, ONE as int)
}

/// A colour scaled by a fixed-point factor, channel by channel, rounded down.
pub open spec fn scale_spec(c: Color, f: int) -> Color {
    Color {
        r: unscale(c.r * f) as i64,
        g: unscale(c.g * f) as i64,
        b: unscale(c.b * f) as i64,
    }
}

/// The colour that leaves a surface: the colour of the surface times the
/// sum of the direct and the indirect light, channel by channel.
pub open spec fn shade_spec(absorb: Vec4, direct: Color, indirect: Color) -> Color {
    Color {
        r: unscale(absorb.0 * (direct.r + indirect.r)) as i64,
        g: unscale(absorb.1 * (direct.g + indirect.g)) as i64,
        b: unscale(absorb.2 * (direct.b + indirect.b)) as i64,
    }
}

/// The direct light on a surface with shading normal `sn` from the
/// direction `dir`: the colour of the sun weighted by the cosine weight, or
/// the ambient light where the sun is hidden.
pub open spec fn direct_spec(hidden: bool, sn: Vec4, dir: Vec4) -> Color {
    if hidden {
        ambient()
    } else {
        Color {
            r: mix_spec(0, sun_color().r as int, lambert_raw(sn, dir)) as i64,
            g: mix_spec(0, sun_color().g as int, lambert_raw(sn, dir)) as i64,
            b: mix_spec(0, sun_color().b as int, lambert_raw(sn, dir)) as i64,
        }
    }
}

/// The dot product of the shading normal with a direction, in fixed point.
pub open spec fn lambert_raw(sn: Vec4, dir: Vec4) -> int {
    unscale(sn.0 * dir.0 + sn.1 * dir.1 + sn.2 * dir.2)
}

/// Every channel of `c` lies within `-m ..= m`.
pub open spec fn within(c: Color, m: int) -> bool {
    &&& -m <= c.r <= m
    &&& -m <= c.g <= m
    &&& -m <= c.b <= m
}

/// A quotient of a bounded number by a positive one is bounded likewise.
pub proof fn lemma_div_bound(x: int, d: int, m: int)
    by (nonlinear_arith)
    requires
        d > 0,
        -(m * d) <= x <= m * d,
    ensures
        -m <= x / d <= m,
{
}

fn fx(x: i128, Ghost(m): Ghost<int>) -> (r: i64)
    requires
        0 <= m <= 0x4000_0000_0000,
        -(m * 65536) <= x <= m * 65536,
    ensures
        r == unscale(x as int),
        -m <= r <= m,
{
    proof {
        lemma_div_bound(x as int, 65536, m);
    }
    div_floor(x, 65536) as i64
}

fn combine_one(b0: i64, b1: i64, b2: i64, c: Vec4) -> (r: i64)
    requires
        -0x8_0000 <= b0 <= 0x8_0000,
        -0x8_0000 <= b1 <= 0x8_0000,
        -0x8_0000 <= b2 <= 0x8_0000,
        fits(c, ONE as int),
    ensures
        r == combine_lane(b0 as int, b1 as int, b2 as int, c),
        -0x18_0000 <= r <= 0x18_0000,
{
    let e = Ghost(0x8_0000int);
    let o = Ghost(0x1_0000int);
    let x: i128 = mul_wide(b0 as i128, c.0 as i128, e, o) + mul_wide(b1 as i128, c.1 as i128, e, o)
        + mul_wide(b2 as i128, c.2 as i128, e, o);
    fx(x, Ghost(0x18_0000))
}

/// The vector with the coordinates `c` in the frame `(b0, b1, b2)`.
pub fn combine(b0: Vec4, b1: Vec4, b2: Vec4, c: Vec4) -> (r: Vec4)
    requires
        fits(b0, 8 * ONE),
        fits(b1, 8 * ONE),
        fits(b2, 8 * ONE),
        fits(c, ONE as int),
    ensures
        r == combine_spec(seq![b0, b1, b2], c),
        fits(r, 24 * ONE),
{
    Vec4(
        combine_one(b0.0, b1.0, b2.0, c),
        combine_one(b0.1, b1.1, b2.1, c),
        combine_one(b0.2, b1.2, b2.2, c),
        0,
    )
}

/// A direction over the hemisphere around `b1`: the vector with the drawn
/// coordinates `c` in the frame that `basis_from_b1` builds around `b1`.
pub fn hemi_rand(b1: Vec4, c: Vec4) -> (r: Vec4)
    requires
        fits(b1, 2 * ONE),
        fits(c, ONE as int),
    ensures
        r == combine_spec(basis_spec(b1), c),
        fits(r, 24 * ONE),
{
    let (b0, b1, b2) = basis_from_b1(b1);
    combine(b0, b1, b2, c)
}

fn blend_one(a0: i64, a1: i64, a2: i64, q0: i128, q1: i128, w: i128, Ghost(m): Ghost<int>) -> (r:
    i64)
    requires
        0 <= m <= 0x2_0000,
        -m <= a0 <= m,
        -m <= a1 <= m,
        -m <= a2 <= m,
        0 < w <= 0x3_0000_0000_0000_0000_0000_0000,
        0 <= q0,
        0 <= q1,
        q0 + q1 <= w,
    ensures
        r == blend_lane(a0 as int, a1 as int, a2 as int, q0 as int, q1 as int, w as int),
        -m <= r <= m,
{
    let q2: i128 = w - q0 - q1;
    let g = Ghost(0x2_0000int);
    let h = Ghost(0x3_0000_0000_0000_0000_0000_0000int);
    let x: i128 = mul_wide(a0 as i128, q0, g, h) + mul_wide(a1 as i128, q1, g, h) + mul_wide(
        a2 as i128,
        q2,
        g,
        h,
    );
    proof {
        assert(-(m * q0) <= a0 * q0 <= m * q0) by (nonlinear_arith)
            requires
                -m <= a0 <= m,
                0 <= q0,
        ;
        assert(-(m * q1) <= a1 * q1 <= m * q1) by (nonlinear_arith)
            requires
                -m <= a1 <= m,
                0 <= q1,
        ;
        assert(-(m * q2) <= a2 * q2 <= m * q2) by (nonlinear_arith)
            requires
                -m <= a2 <= m,
                0 <= q2,
        ;
        assert(m * q0 + m * q1 + m * q2 == m * w) by (nonlinear_arith)
            requires
                q2 == w - q0 - q1,
        ;
        lemma_div_bound(x as int, w as int, m);
    }
    div_floor(x, w) as i64
}

/// The value at the barycentric coordinates of a collision of a quantity
/// given at the three vertices of the face.
pub fn blend(a: &[Vec4; 3], c: &Collision) -> (r: Vec4)
    requires
        fits(a[0], 2 * ONE),
        fits(a[1], 2 * ONE),
        fits(a[2], 2 * ONE),
        bary_ok(*c),
    ensures
        r == blend_spec(a@, *c),
        fits(r, 2 * ONE),
{
    blend_within(a, c, Ghost(0x2_0000))
}

pub(crate) fn blend_within(a: &[Vec4; 3], c: &Collision, Ghost(m): Ghost<int>) -> (r: Vec4)
    requires
        0 <= m <= 0x2_0000,
        fits(a[0], m),
        fits(a[1], m),
        fits(a[2], m),
        bary_ok(*c),
    ensures
        r == blend_spec(a@, *c),
        fits(r, m),
{
    let q0 = c.bary[0].num;
    let q1 = c.bary[1].num;
    let w = c.bary[0].den;
    Vec4(
        blend_one(a[0].0, a[1].0, a[2].0, q0, q1, w, Ghost(m)),
        blend_one(a[0].1, a[1].1, a[2].1, q0, q1, w, Ghost(m)),
        blend_one(a[0].2, a[1].2, a[2].2, q0, q1, w, Ghost(m)),
        0,
    )
}

/// The dot product of a shading normal with a direction, in fixed point.
pub fn lambert(sn: Vec4, dir: Vec4) -> (r: i64)
    requires
        fits(sn, 2 * ONE),
        fits(dir, 24 * ONE),
    ensures
        r == lambert_raw(sn, dir),
{
    let g = Ghost(0x2_0000int);
    let h = Ghost(0x18_0000int);
    let x: i128 = mul_wide(sn.0 as i128, dir.0 as i128, g, h) + mul_wide(
        sn.1 as i128,
        dir.1 as i128,
        g,
        h,
    ) + mul_wide(sn.2 as i128, dir.2 as i128, g, h);
    fx(x, Ghost(0x90_0000))
}

/// A colour scaled by a factor between zero and one.
pub fn scale(c: Color, f: i64) -> (r: Color)
    requires
        c.bounded(),
        0 <= f <= ONE,
    ensures
        r == scale_spec(c, f as int),
        r.bounded(),
{
    proof {
        lemma_scale_within(c, f as int, 0x100_0000_0000);
    }
    let r = scale_one(c.r, f);
    let g = scale_one(c.g, f);
    let b = scale_one(c.b, f);
    Color { r: r, g: g, b: b }
}

fn scale_one(c: i64, f: i64) -> (r: i64)
    requires
        -0x100_0000_0000 <= c <= 0x100_0000_0000,
        0 <= f <= ONE,
    ensures
        r == unscale(c * f),
{
    let x: i128 = mul_wide(c as i128, f as i128, Ghost(0x100_0000_0000), Ghost(0x1_0000));
    proof {
        lemma_scale_bound(c as int, f as int, 0x100_0000_0000);
    }
    div_floor(x, 65536) as i64
}

/// A number scaled by a factor between zero and one keeps its bound.
pub proof fn lemma_scale_bound(c: int, f: int, m: int)
    requires
        0 <= f <= ONE,
        -m <= c <= m,
    ensures
        -m <= unscale(c * f) <= m,
{
    assert(-(m * 65536) <= c * f <= m * 65536) by (nonlinear_arith)
        requires
            -m <= c <= m,
            0 <= f <= 65536,
    ;
    lemma_div_bound(c * f, 65536, m);
}

/// A colour scaled by a factor between zero and one keeps the bound of its channels.
pub proof fn lemma_scale_within(c: Color, f: int, m: int)
    requires
        0 <= f <= ONE,
        within(c, m),
    ensures
        within(scale_spec(c, f), m),
{
    lemma_scale_bound(c.r as int, f, m);
    lemma_scale_bound(c.g as int, f, m);
    lemma_scale_bound(c.b as int, f, m);
    if m > 0x7fff_ffff_ffff_ffff {
    }
}

/// The colour that leaves a surface of colour `absorb` under the given
/// direct and indirect light.
pub fn shade(absorb: Vec4, direct: Color, indirect: Color) -> (r: Color)
    requires
        fits(absorb, ONE as int),
        within(direct, ONE as int),
        within(indirect, 0x80_0000_0000),
    ensures
        r == shade_spec(absorb, direct, indirect),
        r.bounded(),
{
    shade_within(absorb, direct, indirect, Ghost(0x80_0000_0000))
}

pub(crate) fn shade_within(
    absorb: Vec4,
    direct: Color,
    indirect: Color,
    Ghost(m): Ghost<int>,
) -> (r: Color)
    requires
        fits(absorb, ONE as int),
        0 <= m <= 0x80_0000_0000,
        within(direct, ONE as int),
        within(indirect, m),
    ensures
        r == shade_spec(absorb, direct, indirect),
        within(r, m + ONE),
{
    Color {
        r: shade_one(absorb.0, direct.r + indirect.r, Ghost(m + ONE)),
        g: shade_one(absorb.1, direct.g + indirect.g, Ghost(m + ONE)),
        b: shade_one(absorb.2, direct.b + indirect.b, Ghost(m + ONE)),
    }
}

fn shade_one(a: i64, l: i64, Ghost(m): Ghost<int>) -> (r: i64)
    requires
        -ONE <= a <= ONE,
        0 <= m <= 0x100_0000_0000,
        -m <= l <= m,
    ensures
        r == unscale(a * l),
        -m <= r <= m,
{
    let x: i128 = mul_wide(a as i128, l as i128, Ghost(0x1_0000), Ghost(0x100_0000_0000));
    proof {
        assert(-(m * 65536) <= a * l <= m * 65536) by (nonlinear_arith)
            requires
                -65536 <= a <= 65536,
                -m <= l <= m,
        ;
        lemma_div_bound(a * l, 65536, m);
    }
    div_floor(x, 65536) as i64
}

impl Sample {
    /// The colour that a sample shows: the horizon colour of the tracer for
    /// a ray that left the scene, black for a path that was cut off.
    pub fn get_color(&self, tr: &Tracer) -> (c: Color)
        ensures
            c == match *self {
                Sample::Horizon => tr.horizon,
                Sample::MaxDepth => Color { r: 0, g: 0, b: 0 },
                Sample::Hit(_, c) => c,
            },
    {
        match *self {
            Sample::Horizon => tr.horizon,
            Sample::MaxDepth => Color::new(0, 0, 0),
            Sample::Hit(_, c) => c,
        }
    }
}

/// A coordinate limited to the lattice.
pub open spec fn into_lattice(x: int) -> int {
    clamp_spec(x, -0x4_0000, 0x4_0000)
}

/// The lattice point next below the point at distance `d` along the ray,
/// limited to the lattice.
pub open spec fn point_spec(r: Ray, d: Ratio) -> Vec4 {
    Vec4(
        into_lattice((r.p0.0 * d.den + r.v.0 * d.num) / (d.den as int)) as i64,
        into_lattice((r.p0.1 * d.den + r.v.1 * d.num) / (d.den as int)) as i64,
        into_lattice((r.p0.2 * d.den + r.v.2 * d.num) / (d.den as int)) as i64,
        0,
    )
}

/// The step of one lattice unit that lies nearest to the unit direction `n`.
pub open spec fn step_lane(n: int) -> int {
    (n + 0x8000) / 0x1_0000
}

/// The origin of a ray that leaves the point `p` in direction `dir`: `p`
/// moved by the lattice step nearest to the direction, so that the ray does
/// not start on the surface that it leaves, and limited to the lattice.
pub open spec fn nudge_spec(p: Vec4, dir: Vec4) -> Vec4 {
    let n = normalize_spec(dir);
    Vec4(
        into_lattice(p.0 + step_lane(n.0)) as i64,
        into_lattice(p.1 + step_lane(n.1)) as i64,
        into_lattice(p.2 + step_lane(n.2)) as i64,
        0,
    )
}

/// The direction towards a point of the sun: the frame of the sun combined
/// with the drawn offsets, scaled to unit length and reversed.
pub open spec fn sun_dir_spec(basis: Seq<Vec4>, sun: Vec4) -> Vec4 {
    let n = normalize_spec(combine_spec(basis, Vec4(sun.0, ONE, sun.1, 0)));
    Vec4((-n.0) as i64, (-n.1) as i64, (-n.2) as i64, 0)
}

/// The ray with identifier `id` that leaves `p` in direction `dir`.
pub open spec fn leaving(p: Vec4, dir: Vec4, id: u64) -> Ray {
    Ray { p0: nudge_spec(p, dir), v: v_of(normalize_spec(dir)), id: id }
}

/// The colour that a sample shows under the given horizon colour.
pub open spec fn color_of(s: Sample, horizon: Color) -> Color {
    match s {
        Sample::Horizon => horizon,
        Sample::MaxDepth => Color { r: 0, g: 0, b: 0 },
        Sample::Hit(_, c) => c,
    }
}

/// The direction of the bounce of a path at a collision with the face `f`:
/// the drawn direction over the hemisphere around the shading normal.
pub open spec fn bounce_dir(f: Face, c: Collision, d: Draw) -> Vec4 {
    combine_spec(basis_spec(blend_spec(f.vn@, c)), d.hemi)
}

/// The colour that comes back from a collision of the ray `r` with the
/// face `f`, where `hidden` says whether the sun is hidden from the point of
/// the collision and `deeper` is the colour that comes back along the bounce.
pub open spec fn hit_color(
    basis: Seq<Vec4>,
    r: Ray,
    f: Face,
    c: Collision,
    d: Draw,
    hidden: bool,
    deeper: Color,
) -> Color {
    let sn = blend_spec(f.vn@, c);
    shade_spec(
        blend_spec(f.vc@, c),
        direct_spec(hidden, sn, sun_dir_spec(basis, d.sun)),
        scale_spec(deeper, lambert_spec(sn, bounce_dir(f, c, d))),
    )
}

/// The colour `col` is the colour that comes back from the collision `c`
/// where `deeper` comes back along the bounce, for the ray towards the sun
/// under some identifier.
pub open spec fn lit(
    basis: Seq<Vec4>,
    faces: Seq<Face>,
    r: Ray,
    c: Collision,
    d: Draw,
    col: Color,
    deeper: Color,
) -> bool {
    exists|sid: u64|
        col == hit_color(
            basis,
            r,
            faces[c.face as int],
            c,
            d,
            #[trigger] meets_any(
                leaving(point_spec(r, c.dist), sun_dir_spec(basis, d.sun), sid),
                faces,
            ),
            deeper,
        )
}

/// What a sample of a path owes. Beyond the greatest depth the path is cut
/// off. A ray that meets no face shows the horizon. Otherwise the sample is
/// a hit at a closest collision of the ray, and its colour is that of the
/// surface times the sum of the direct light, which is the light of the sun
/// unless a face hides the sun from the point of the collision, and of the
/// indirect light, which is the colour of a sample one level deeper along
/// the bounce, weighted by the cosine weight of the bounce. The identifiers
/// of the rays that leave the point have no part in it.
pub open spec fn sample_ok(
    max_depth: int,
    horizon: Color,
    basis: Seq<Vec4>,
    faces: Seq<Face>,
    r: Ray,
    depth: int,
    draws: Seq<Draw>,
    s: Sample,
) -> bool
    decreases max_depth + 1 - depth,
{
    if depth > max_depth {
        s is MaxDepth
    } else {
        match s {
            Sample::MaxDepth => false,
            Sample::Horizon => !meets_any(r, faces),
            Sample::Hit(c, col) => {
                &&& closest(r, faces, Some(c))
                &&& exists|deeper: Sample, id: u64|
                    #![trigger
                        leaving(
                            point_spec(r, c.dist),
                            bounce_dir(faces[c.face as int], c, draws[depth - 1]),
                            id,
                        ),
                        color_of(deeper, horizon),
                    ]
                    {
                        &&& sample_ok(
                            max_depth,
                            horizon,
                            basis,
                            faces,
                            leaving(
                                point_spec(r, c.dist),
                                bounce_dir(faces[c.face as int], c, draws[depth - 1]),
                                id,
                            ),
                            depth + 1,
                            draws,
                            deeper,
                        )
                        &&& lit(basis, faces, r, c, draws[depth - 1], col, color_of(deeper, horizon))
                    }
            },
        }
    }
}

/// A hit whose parts are as a sample owes them is a sample.
pub proof fn lemma_sample_hit(
    max_depth: int,
    horizon: Color,
    basis: Seq<Vec4>,
    faces: Seq<Face>,
    r: Ray,
    depth: int,
    draws: Seq<Draw>,
    c: Collision,
    col: Color,
    deeper: Sample,
    id: u64,
)
    requires
        depth <= max_depth,
        closest(r, faces, Some(c)),
        sample_ok(
            max_depth,
            horizon,
            basis,
            faces,
            leaving(
                point_spec(r, c.dist),
                bounce_dir(faces[c.face as int], c, draws[depth - 1]),
                id,
            ),
            depth + 1,
            draws,
            deeper,
        ),
        lit(basis, faces, r, c, draws[depth - 1], col, color_of(deeper, horizon)),
    ensures
        sample_ok(max_depth, horizon, basis, faces, r, depth, draws, Sample::Hit(c, col)),
{
    let l = leaving(
        point_spec(r, c.dist),
        bounce_dir(faces[c.face as int], c, draws[depth - 1]),
        id,
    );
    let k = color_of(deeper, horizon);
}

/// The bound of the channels of the colour of a sample at the given depth.
pub open spec fn level_bound(max_depth: int, depth: int) -> int {
    (max_depth + 2 - depth) * ONE
}

/// A coordinate limited to the lattice.
pub(crate) fn lattice(x: i128) -> (r: i64)
    ensures
        r == into_lattice(x as int),
{
    if x < -0x4_0000 {
        -0x4_0000
    } else if x > 0x4_0000 {
        0x4_0000
    } else {
        x as i64
    }
}

/// The lattice point next below the point at distance `d` along the ray.
pub fn point_at(r: &Ray, d: Ratio) -> (p: Vec4)
    requires
        r.wf(),
        d.is_dist(),
        d.den != 0,
    ensures
        p == point_spec(*r, d),
        in_lattice(p),
{
    let l = Ghost(0x4_0000int);
    let n = Ghost(0xC00_0000_0000_0000int);
    let x: i128 = mul_wide(r.p0.0 as i128, d.den, l, n) + mul_wide(r.v.0 as i128, d.num, l, n);
    let y: i128 = mul_wide(r.p0.1 as i128, d.den, l, n) + mul_wide(r.v.1 as i128, d.num, l, n);
    let z: i128 = mul_wide(r.p0.2 as i128, d.den, l, n) + mul_wide(r.v.2 as i128, d.num, l, n);
    Vec4(
        lattice(div_floor(x, d.den)),
        lattice(div_floor(y, d.den)),
        lattice(div_floor(z, d.den)),
        0,
    )
}

/// The origin of a ray that leaves the point `p` in direction `dir`.
pub fn nudge(p: Vec4, dir: Vec4) -> (o: Vec4)
    requires
        in_lattice(p),
        fits(dir, WIDE_MAX as int),
    ensures
        o == nudge_spec(p, dir),
        in_lattice(o),
{
    let n = v_normalize(dir);
    Vec4(
        lattice(p.0 as i128 + div_floor(n.0 as i128 + 0x8000, 0x1_0000)),
        lattice(p.1 as i128 + div_floor(n.1 as i128 + 0x8000, 0x1_0000)),
        lattice(p.2 as i128 + div_floor(n.2 as i128 + 0x8000, 0x1_0000)),
        0,
    )
}

/// The collision of a ray with a face that it meets has barycentric
/// coordinates in the triangle.
pub proof fn lemma_bary_ok(r: Ray, f: Face, fi: usize)
    requires
        r.wf(),
        f.wf(),
        hits(r, f),
    ensures
        bary_ok(collision_spec(r, f, fi)),
        collision_spec(r, f, fi).dist.is_dist(),
        collision_spec(r, f, fi).dist.den != 0,
{
    lemma_hit_bounds(r, f);
    let c0 = crate::geom::fast::proj_spec(f.plane, crate::geom::scene::edge(f.vp[0], f.vp[2]));
    let c1 = crate::geom::fast::proj_spec(f.plane, crate::geom::scene::edge(f.vp[1], f.vp[2]));
    crate::geom::fast::lemma_mul_bound(c0.0 as int, c1.1 as int, 0x8_0000, 0x8_0000);
    crate::geom::fast::lemma_mul_bound(c0.1 as int, c1.0 as int, 0x8_0000, 0x8_0000);
    let m = crate::geom::fast::magnitude(f.det as int);
    let d = crate::render::trace::hit_dist(r, f).den as int;
    crate::geom::fast::lemma_mul_bound(m, d, 0x80_0000_0000, 0x600_0000_0000_0000);
    assert(m * d > 0) by (nonlinear_arith)
        requires
            m > 0,
            d > 0,
    ;
}

/// The direct light of the sun mixed with the ambient light stays within
/// the range of colours.
pub proof fn lemma_direct_within(hidden: bool, sn: Vec4, dir: Vec4)
    ensures
        within(direct_spec(hidden, sn, dir), ONE as int),
{
    let f = clamp_spec(lambert_raw(sn, dir), 0, ONE as int);
    assert(0 <= 49152 * f <= 49152 * 65536 && 0 <= 40632 * f <= 40632 * 65536 && 0 <= 26870 * f
        <= 26870 * 65536) by (nonlinear_arith)
        requires
            0 <= f <= 65536,
    ;
    assert(0 * (65536 - f) == 0) by (nonlinear_arith);
}

impl Tracer {
    /// The direct light that falls on the point `p` of a surface with
    /// shading normal `sn`: a point of the sun is chosen by the drawn offsets
    /// `sun`; where a face hides it from `p`, the light is the ambient light,
    /// and otherwise the colour of the sun weighted by the cosine weight of
    /// its direction on the surface.
    pub fn direct_light(&mut self, sc: &Scene, p: Vec4, sn: Vec4, sun: Vec4) -> (c: Color)
        requires
            old(self).wf(),
            old(self).next_id < u64::MAX,
            old(self).last_ids.len() == sc.f.len(),
            sc.wf(),
            in_lattice(p),
            fits(sn, 2 * ONE),
            fits(sun, ONE as int),
        ensures
            c == direct_spec(
                meets_any(
                    leaving(p, sun_dir_spec(old(self).sun_basis@, sun), old(self).next_id),
                    sc.f@,
                ),
                sn,
                sun_dir_spec(old(self).sun_basis@, sun),
            ),
            within(c, ONE as int),
            final(self).wf(),
            final(self).last_ids.len() == sc.f.len(),
            final(self).next_id == old(self).next_id + 1,
            final(self).horizon == old(self).horizon,
            final(self).max_depth == old(self).max_depth,
            final(self).sun_basis == old(self).sun_basis,
    {
        let b0 = self.sun_basis[0];
        let b1 = self.sun_basis[1];
        let b2 = self.sun_basis[2];
        let towards = v_normalize(combine(b0, b1, b2, Vec4(sun.0, ONE, sun.1, 0)));
        let sun_dir = Vec4(-towards.0, -towards.1, -towards.2, 0);
        assert(seq![b0, b1, b2] =~= self.sun_basis@);
        assert(sun_dir == sun_dir_spec(self.sun_basis@, sun));
        let origin = nudge(p, sun_dir);
        let to_sun = Ray::new(self, origin, sun_dir);
        assert(to_sun.v == v_of(normalize_spec(sun_dir)));
        let hidden = to_sun.trace_any(self, sc);
        proof {
            lemma_direct_within(hidden, sn, sun_dir);
        }
        if hidden {
            return Color::new(0, 0, 0);
        }
        let ambient = Color::new(0, 0, 0);
        let sun_color = Color::new(49152, 40632, 26870);
        ambient.mix(&sun_color, lambert(sn, sun_dir))
    }

    fn sample_real(&mut self, sc: &Scene, r: &Ray, depth: usize, draws: &Vec<Draw>) -> (s: Sample)
        requires
            old(self).wf(),
            old(self).max_depth <= DEPTH_MAX,
            1 <= depth <= old(self).max_depth + 1,
            old(self).next_id + 2 * (old(self).max_depth + 1 - depth) < u64::MAX,
            old(self).last_ids.len() == sc.f.len(),
            old(self).fresh(r.id),
            sc.wf(),
            sc.shadable(),
            r.wf(),
            draws.len() >= old(self).max_depth,
            forall|i: int| 0 <= i < draws.len() ==> draw_ok(#[trigger] draws[i]),
        ensures
            sample_ok(
                old(self).max_depth as int,
                old(self).horizon,
                old(self).sun_basis@,
                sc.f@,
                *r,
                depth as int,
                draws@,
                s,
            ),
            s is MaxDepth <==> depth > old(self).max_depth,
            depth <= old(self).max_depth ==> (s is Horizon <==> !meets_any(*r, sc.f@)),
            s matches Sample::Hit(c, col) ==> closest(*r, sc.f@, Some(c)) && within(
                col,
                level_bound(old(self).max_depth as int, depth as int),
            ),
            final(self).wf(),
            final(self).last_ids.len() == sc.f.len(),
            old(self).next_id <= final(self).next_id <= old(self).next_id + 2 * (old(
                self,
            ).max_depth + 1 - depth),
            final(self).horizon == old(self).horizon,
            final(self).max_depth == old(self).max_depth,
            final(self).sun_basis == old(self).sun_basis,
        decreases old(self).max_depth + 1 - depth,
    {
        if depth > self.max_depth {
            return Sample::MaxDepth;
        }
        let c = match r.trace(self, sc) {
            Some(c) => c,
            None => {
                return Sample::Horizon;
            },
        };
        let f = &sc.f[c.face];
        proof {
            assert(sc.f[c.face as int].wf());
            assert(shadable(sc.f[c.face as int]));
            lemma_bary_ok(*r, *f, c.face);
        }
        let p = point_at(r, c.dist);
        let sn = blend_within(&f.vn, &c, Ghost(0x2_0000));
        let absorb = blend_within(&f.vc, &c, Ghost(0x1_0000));
        let draw = draws[depth - 1];
        assert(draw_ok(draw));

        let iv = hemi_rand(sn, draw.hemi);
        let fac = lambert(sn, iv);
        let fac = if fac < 0 {
            0
        } else if fac > ONE {
            ONE
        } else {
            fac
        };
        let origin = nudge(p, iv);
        let bounce = Ray::new(self, origin, iv);
        assert(bounce == leaving(p, iv, bounce.id));
        let deeper = self.sample_real(sc, &bounce, depth + 1, draws);
        let back = deeper.get_color(self);
        let ghost sid = self.next_id;
        let ghost m = level_bound(self.max_depth as int, depth + 1);
        proof {
            assert(m == (self.max_depth + 1 - depth) * 65536);
            assert(within(back, m));
            lemma_scale_within(back, fac as int, m);
        }
        let indirect = scale(back, fac);
        let direct = self.direct_light(sc, p, sn, draw.sun);
        let col = shade_within(absorb, direct, indirect, Ghost(m));
        proof {
            let basis = self.sun_basis@;
            let f0 = sc.f[c.face as int];
            let d0 = draws[depth - 1];
            let hidden = meets_any(
                leaving(point_spec(*r, c.dist), sun_dir_spec(basis, d0.sun), sid),
                sc.f@,
            );
            assert(iv == bounce_dir(f0, c, d0));
            assert(fac == lambert_spec(sn, iv));
            assert(col == hit_color(basis, *r, f0, c, d0, hidden, color_of(deeper, self.horizon)));
            assert(sample_ok(
                self.max_depth as int,
                self.horizon,
                basis,
                sc.f@,
                leaving(point_spec(*r, c.dist), bounce_dir(f0, c, d0), bounce.id),
                depth + 1,
                draws@,
                deeper,
            ));
            assert(closest(*r, sc.f@, Some(c)));
            assert(lit(basis, sc.f@, *r, c, d0, col, color_of(deeper, self.horizon)));
            lemma_sample_hit(
                self.max_depth as int,
                self.horizon,
                basis,
                sc.f@,
                *r,
                depth as int,
                draws@,
                c,
                col,
                deeper,
                bounce.id,
            );
            assert(sample_ok(
                self.max_depth as int,
                self.horizon,
                basis,
                sc.f@,
                *r,
                depth as int,
                draws@,
                Sample::Hit(c, col),
            ));
        }
        Sample::Hit(c, col)
    }

    /// Samples the scene along the ray: the colour that comes back along a
    /// path that starts with the ray and bounces, where it meets faces, in
    /// the directions that the draws give, one draw for each depth.
    pub fn sample(&mut self, sc: &Scene, r: &Ray, draws: &Vec<Draw>) -> (c: Color)
        requires
            old(self).wf(),
            old(self).max_depth <= DEPTH_MAX,
            old(self).next_id + 2 * old(self).max_depth < u64::MAX,
            old(self).last_ids.len() == sc.f.len(),
            old(self).fresh(r.id),
            sc.wf(),
            sc.shadable(),
            r.wf(),
            draws.len() >= old(self).max_depth,
            forall|i: int| 0 <= i < draws.len() ==> draw_ok(#[trigger] draws[i]),
        ensures
            exists|s: Sample|
                #[trigger] sample_ok(
                    old(self).max_depth as int,
                    old(self).horizon,
                    old(self).sun_basis@,
                    sc.f@,
                    *r,
                    1,
                    draws@,
                    s,
                ) && c == color_of(s, old(self).horizon),
            old(self).max_depth == 0 ==> c == (Color { r: 0, g: 0, b: 0 }),
            old(self).max_depth > 0 && !meets_any(*r, sc.f@) ==> c == old(self).horizon,
            within(c, level_bound(old(self).max_depth as int, 1)),
            final(self).wf(),
            final(self).last_ids.len() == sc.f.len(),
            old(self).next_id <= final(self).next_id <= old(self).next_id + 2 * old(self).max_depth,
            final(self).horizon == old(self).horizon,
            final(self).max_depth == old(self).max_depth,
            final(self).sun_basis == old(self).sun_basis,
    {
        let s = self.sample_real(sc, r, 1, draws);
        s.get_color(self)
    }
}

} // verus!
