//! Ray generation: views turn image coordinates into rays, and a pixel is
//! the mean of the samples along the rays through it.

use vstd::prelude::*;
use crate::geom::fast::{
    div_floor, fits, in_lattice, lanes, mul_wide, normalize_spec, unscale, v_normalize, v_of, Vec2,
    Vec4, ONE,
};
use crate::geom::scene::{Face, Scene};
use crate::render::shade::{
    color_of, draw_ok, into_lattice, lattice, level_bound, lemma_div_bound, sample_ok, within,
    Draw, Sample, DEPTH_MAX,
};
use crate::render::trace::{Ray, Tracer};
use crate::util::color::Color;

verus! {

/// A conversion of two-dimensional image coordinates to rays.
pub trait Projection {
    /// The ray through the image point `uv`, whose coordinates are
    /// fixed-point numbers between minus one and one, beyond which only the
    /// jitter of a sample reaches, by less than four. A view with a lens lets the ray start at
    /// the point `lens` of the unit disk. The ray takes the next identifier
    /// of the tracer.
    fn get_ray(&self, tracer: &mut Tracer, uv: Vec2, lens: Vec2) -> (r: Ray)
        requires
            old(tracer).wf(),
            old(tracer).next_id < u64::MAX,
            fits(uv, 4 * ONE),
            fits(lens, ONE as int),
        ensures
            r.wf(),
            r.id == old(tracer).next_id,
            final(tracer).next_id == r.id + 1,
            final(tracer).last_ids == old(tracer).last_ids,
            final(tracer).horizon == old(tracer).horizon,
            final(tracer).max_depth == old(tracer).max_depth,
            final(tracer).sun_basis == old(tracer).sun_basis,
    ;
}

/// The greatest number of columns or rows of an image.
pub const IMAGE_MAX: usize = 0x1000_0000;

/// One coordinate of an image point: `n` pixel halves from the centre plus
/// the jitter `j` of a sample, a fixed-point part of a pixel half taken
/// twice, over `scale` pixel halves.
pub open spec fn uv_lane(n: int, j: int, scale: int) -> int {
    (n * ONE + 2 * j) / scale
}

/// The image point of the pixel in column `col` and row `row` of an image of
/// `cols` by `rows` pixels, moved by the jitter `(jx, jy)`. The longer side
/// of the image spans the range from minus one to one, columns count from
/// the left and rows from the top.
pub open spec fn pixel_uv_spec(col: int, row: int, cols: int, rows: int, jx: int, jy: int) -> Vec4 {
    let scale = if rows >= cols {
        rows
    } else {
        cols
    };
    let u = uv_lane(2 * col - cols, jx, scale);
    let v = uv_lane(rows - 2 * row, jy, scale);
    Vec4(u as i64, v as i64, u as i64, v as i64)
}

/// The image point of a pixel, moved by the jitter of a sample.
pub fn pixel_uv(col: usize, row: usize, cols: usize, rows: usize, jx: i64, jy: i64) -> (uv: Vec2)
    requires
        col < cols <= IMAGE_MAX,
        row < rows <= IMAGE_MAX,
        0 <= jx < ONE,
        0 <= jy < ONE,
    ensures
        uv == pixel_uv_spec(col as int, row as int, cols as int, rows as int, jx as int, jy as int),
        fits(uv, 4 * ONE),
{
    let scale: i128 = if rows >= cols {
        rows as i128
    } else {
        cols as i128
    };
    let nu: i128 = (2 * (col as i128) - cols as i128) * 65536 + 2 * (jx as i128);
    let nv: i128 = (rows as i128 - 2 * (row as i128)) * 65536 + 2 * (jy as i128);
    proof {
        lemma_div_bound(nu as int, scale as int, 0x4_0000);
        lemma_div_bound(nv as int, scale as int, 0x4_0000);
    }
    let u: i64 = div_floor(nu, scale) as i64;
    let v: i64 = div_floor(nv, scale) as i64;
    Vec4(u, v, u, v)
}

/// A random number from the thread-local generator of `rand`, as
/// `rand::random` returns it. Nothing is claimed of the number.
#[verifier::external_body]
fn random_bits() -> (r: u32) {
    rand::random::<u32>()
}

/// The fixed-point number from zero up to, but not including, one that the
/// random bits `bits` stand for: their upper half.
pub open spec fn fraction_spec(bits: u32) -> int {
    bits as int / 65536
}

/// The fixed-point number from zero up to, but not including, one that the
/// random bits `bits` stand for.
pub fn fraction(bits: u32) -> (r: i64)
    ensures
        r == fraction_spec(bits),
        0 <= r < ONE,
{
    (bits / 65536) as i64
}

/// A random fixed-point number from zero up to, but not including, one:
/// the number that freshly drawn random bits stand for.
pub fn uniform() -> (r: i64)
    ensures
        exists|bits: u32| r == #[trigger] fraction_spec(bits),
        0 <= r < ONE,
{
    fraction(random_bits())
}

/// The sum of the colours, channel by channel.
pub open spec fn sum_spec(samples: Seq<Color>) -> (int, int, int)
    decreases samples.len(),
{
    if samples.len() == 0 {
        (0, 0, 0)
    } else {
        let s = sum_spec(samples.drop_last());
        (s.0 + samples.last().r, s.1 + samples.last().g, s.2 + samples.last().b)
    }
}

/// The arithmetic mean of the colours, channel by channel, rounded down;
/// black where there are none.
pub open spec fn mean_spec(samples: Seq<Color>) -> Color {
    if samples.len() == 0 {
        Color { r: 0, g: 0, b: 0 }
    } else {
        Color {
            r: (sum_spec(samples).0 / (samples.len() as int)) as i64,
            g: (sum_spec(samples).1 / (samples.len() as int)) as i64,
            b: (sum_spec(samples).2 / (samples.len() as int)) as i64,
        }
    }
}

/// The estimate of a pixel: the arithmetic mean of its samples.
pub fn pixel_mean(samples: &Vec<Color>) -> (c: Color)
    requires
        forall|i: int| 0 <= i < samples.len() ==> (#[trigger] samples[i]).bounded(),
    ensures
        c == mean_spec(samples@),
        c.bounded(),
{
    let n = samples.len();
    if n == 0 {
        return Color::new(0, 0, 0);
    }
    let mut r: i128 = 0;
    let mut g: i128 = 0;
    let mut b: i128 = 0;
    let mut i: usize = 0;
    while i < n
        invariant
            i <= n,
            n == samples.len(),
            forall|k: int| 0 <= k < samples.len() ==> (#[trigger] samples[k]).bounded(),
            (r as int, g as int, b as int) == sum_spec(samples@.take(i as int)),
            -0x100_0000_0000 * i <= r <= 0x100_0000_0000 * i,
            -0x100_0000_0000 * i <= g <= 0x100_0000_0000 * i,
            -0x100_0000_0000 * i <= b <= 0x100_0000_0000 * i,
        decreases n - i,
    {
        proof {
            assert(samples@.take(i + 1).drop_last() == samples@.take(i as int));
            assert(samples[i as int].bounded());
        }
        r = r + samples[i].r as i128;
        g = g + samples[i].g as i128;
        b = b + samples[i].b as i128;
        i = i + 1;
    }
    proof {
        assert(samples@.take(n as int) == samples@);
        let d = n as int;
        lemma_div_bound(r as int, d, 0x100_0000_0000);
        lemma_div_bound(g as int, d, 0x100_0000_0000);
        lemma_div_bound(b as int, d, 0x100_0000_0000);
    }
    Color {
        r: div_floor(r, n as i128) as i64,
        g: div_floor(g, n as i128) as i64,
        b: div_floor(b, n as i128) as i64,
    }
}

/// The colour `col` is that of a sample of the scene along some ray, with the given draws.
pub open spec fn sampled(
    max_depth: int,
    horizon: Color,
    basis: Seq<Vec4>,
    faces: Seq<Face>,
    draws: Seq<Draw>,
    col: Color,
) -> bool {
    exists|r: Ray, s: Sample|
        r.wf() && #[trigger] sample_ok(max_depth, horizon, basis, faces, r, 1, draws, s) && col
            == color_of(s, horizon)
}

/// Renders one pixel: for each list of draws one sample is taken along the
/// ray of the view through the pixel, jittered within the pixel and started
/// at the point of the lens that belongs to the sample, and the pixel is
/// the mean of the samples.
pub fn render_pixel<V: Projection>(
    view: &V,
    tracer: &mut Tracer,
    sc: &Scene,
    col: usize,
    row: usize,
    cols: usize,
    rows: usize,
    lenses: &Vec<Vec2>,
    draws: &Vec<Vec<Draw>>,
) -> (c: Color)
    requires
        lenses.len() == draws.len(),
        forall|s: int| 0 <= s < lenses.len() ==> fits(#[trigger] lenses[s], ONE as int),
        old(tracer).wf(),
        old(tracer).max_depth <= DEPTH_MAX,
        draws.len() <= IMAGE_MAX,
        old(tracer).next_id + draws.len() * (2 * old(tracer).max_depth + 1) < u64::MAX,
        old(tracer).last_ids.len() == sc.f.len(),
        sc.wf(),
        sc.shadable(),
        col < cols <= IMAGE_MAX,
        row < rows <= IMAGE_MAX,
        forall|s: int|
            0 <= s < draws.len() ==> (#[trigger] draws[s]).len() >= old(tracer).max_depth,
        forall|s: int, i: int|
            0 <= s < draws.len() && 0 <= i < draws[s].len() ==> draw_ok(#[trigger] draws[s][i]),
    ensures
        exists|samples: Seq<Color>|
            {
                &&& samples.len() == draws.len()
                &&& c == #[trigger] mean_spec(samples)
                &&& forall|k: int|
                    0 <= k < samples.len() ==> sampled(
                        old(tracer).max_depth as int,
                        old(tracer).horizon,
                        old(tracer).sun_basis@,
                        sc.f@,
                        draws[k]@,
                        #[trigger] samples[k],
                    )
            },
        within(c, level_bound(old(tracer).max_depth as int, 1)),
        draws.len() == 0 ==> c == (Color { r: 0, g: 0, b: 0 }),
        final(tracer).wf(),
        final(tracer).last_ids.len() == sc.f.len(),
        old(tracer).next_id <= final(tracer).next_id <= old(tracer).next_id + draws.len() * (2
            * old(tracer).max_depth + 1),
        final(tracer).horizon == old(tracer).horizon,
        final(tracer).max_depth == old(tracer).max_depth,
        final(tracer).sun_basis == old(tracer).sun_basis,
{
    let n = draws.len();
    let ghost per = 2 * tracer.max_depth as int + 1;
    let ghost bound = level_bound(tracer.max_depth as int, 1);
    let mut samples: Vec<Color> = Vec::new();
    let mut s: usize = 0;
    while s < n
        invariant
            s <= n,
            n == draws.len(),
            n <= IMAGE_MAX,
            lenses.len() == draws.len(),
            forall|k: int| 0 <= k < lenses.len() ==> fits(#[trigger] lenses[k], ONE as int),
            samples.len() == s,
            per == 2 * old(tracer).max_depth + 1,
            bound == level_bound(old(tracer).max_depth as int, 1),
            tracer.wf(),
            tracer.max_depth <= DEPTH_MAX,
            old(tracer).next_id <= tracer.next_id <= old(tracer).next_id + s * per,
            old(tracer).next_id + n * per < u64::MAX,
            tracer.last_ids.len() == sc.f.len(),
            tracer.horizon == old(tracer).horizon,
            tracer.max_depth == old(tracer).max_depth,
            tracer.sun_basis == old(tracer).sun_basis,
            sc.wf(),
            sc.shadable(),
            col < cols <= IMAGE_MAX,
            row < rows <= IMAGE_MAX,
            forall|k: int|
                0 <= k < draws.len() ==> (#[trigger] draws[k]).len() >= old(tracer).max_depth,
            forall|k: int, i: int|
                0 <= k < draws.len() && 0 <= i < draws[k].len() ==> draw_ok(
                    #[trigger] draws[k][i],
                ),
            forall|k: int| 0 <= k < samples.len() ==> within(#[trigger] samples[k], bound),
            forall|k: int|
                0 <= k < samples.len() ==> sampled(
                    old(tracer).max_depth as int,
                    old(tracer).horizon,
                    old(tracer).sun_basis@,
                    sc.f@,
                    draws[k]@,
                    #[trigger] samples[k],
                ),
        decreases n - s,
    {
        proof {
            assert((s + 1) * per == s * per + per) by (nonlinear_arith);
            assert((s + 1) * per <= n * per) by (nonlinear_arith)
                requires
                    s + 1 <= n,
                    per >= 0,
            ;
        }
        let jx = uniform();
        let jy = uniform();
        let uv = pixel_uv(col, row, cols, rows, jx, jy);
        let r = view.get_ray(tracer, uv, lenses[s]);
        let c = tracer.sample(sc, &r, &draws[s]);
        assert(sampled(
            old(tracer).max_depth as int,
            old(tracer).horizon,
            old(tracer).sun_basis@,
            sc.f@,
            draws[s as int]@,
            c,
        ));
        samples.push(c);
        s = s + 1;
    }
    proof {
        assert(bound <= 0x100_0000_0000);
        lemma_mean_within(samples@, bound);
    }
    pixel_mean(&samples)
}

/// The mean of colours within a bound is within the bound.
pub proof fn lemma_mean_within(samples: Seq<Color>, m: int)
    requires
        m >= 0,
        forall|k: int| 0 <= k < samples.len() ==> within(#[trigger] samples[k], m),
    ensures
        within(mean_spec(samples), m),
{
    lemma_sum_within(samples, m);
    if samples.len() > 0 {
        let d = samples.len() as int;
        let s = sum_spec(samples);
        assert(-m <= s.0 / d <= m && -m <= s.1 / d <= m && -m <= s.2 / d <= m)
            by (nonlinear_arith)
            requires
                d > 0,
                -(m * d) <= s.0 <= m * d,
                -(m * d) <= s.1 <= m * d,
                -(m * d) <= s.2 <= m * d,
        ;
        if m > 0x7fff_ffff_ffff_ffff {
        }
    }
}

/// The sum of colours within a bound is within the bound times their number.
pub proof fn lemma_sum_within(samples: Seq<Color>, m: int)
    requires
        m >= 0,
        forall|k: int| 0 <= k < samples.len() ==> within(#[trigger] samples[k], m),
    ensures
        -(m * samples.len()) <= sum_spec(samples).0 <= m * samples.len(),
        -(m * samples.len()) <= sum_spec(samples).1 <= m * samples.len(),
        -(m * samples.len()) <= sum_spec(samples).2 <= m * samples.len(),
    decreases samples.len(),
{
    if samples.len() > 0 {
        lemma_sum_within(samples.drop_last(), m);
        assert(within(samples.last(), m));
        let n = samples.len() as int;
        assert(m * n == m * (n - 1) + m) by (nonlinear_arith);
    } else {
        assert(m * 0 == 0) by (nonlinear_arith);
    }
}

/// A rectilinear projection: a frustum that converges towards a position.
/// Before it is rotated the view faces -Z. The field of view is the angle
/// inside the frustum along its longest axis. An aperture and a focal point
/// give depth of field: the focal plane is parallel to the image plane and
/// contains the focal point.
pub struct Rectilinear {
    frustum: Frustum,
}

/// The parameters of a rectilinear projection.
#[derive(Copy, Clone, Debug)]
pub struct Frustum {
    /// The position of the view.
    pub pos: Vec4,
    /// The rows of the rotation of the view, in fixed point.
    pub look: [Vec4; 3],
    /// The tangent of half the field of view, in fixed point.
    pub f: i64,
    /// The radius of the aperture, in lattice units.
    pub aper: i64,
    /// The focal point.
    pub foc: Vec4,
}

/// The greatest tangent of half a field of view.
pub const TANGENT_MAX: i64 = 0x100_0000;

/// The product of the matrix with rows `m` and the vector `v`, in fixed point.
pub open spec fn rotate_spec(m: Seq<Vec4>, v: Vec4) -> Vec4 {
    Vec4(
        unscale(m[0].0 * v.0 + m[0].1 * v.1 + m[0].2 * v.2) as i64,
        unscale(m[1].0 * v.0 + m[1].1 * v.1 + m[1].2 * v.2) as i64,
        unscale(m[2].0 * v.0 + m[2].1 * v.1 + m[2].2 * v.2) as i64,
        0,
    )
}

/// The direction of the view through the image point `uv`, before the lens
/// is taken into account: the point of the image plane at distance one,
/// scaled to unit length and rotated.
pub open spec fn through_spec(view: Frustum, uv: Vec4) -> Vec4 {
    rotate_spec(
        view.look@,
        v_of(
            normalize_spec(
                Vec4(unscale(uv.0 * view.f) as i64, unscale(uv.1 * view.f) as i64, (-ONE) as i64, 0),
            ),
        ),
    )
}

/// The normal of the focal plane: the rotated Z axis.
pub open spec fn axis_spec(view: Frustum) -> Vec4 {
    Vec4(view.look[0].2, view.look[1].2, view.look[2].2, 0)
}

/// The offset of the point `lens` of the lens from the position of the
/// view, in lattice units: the point scaled by the aperture and rotated.
pub open spec fn bokeh_spec(view: Frustum, lens: Vec4) -> Vec4 {
    rotate_spec(
        view.look@,
        Vec4(unscale(lens.0 * view.aper) as i64, unscale(lens.1 * view.aper) as i64, 0, 0),
    )
}

/// The distance from the position of the view to the focal plane along the
/// direction `v`, as a numerator and a denominator.
pub open spec fn focus_spec(view: Frustum, v: Vec4) -> (int, int) {
    let n = axis_spec(view);
    (
        (view.foc.0 - view.pos.0) * n.0 + (view.foc.1 - view.pos.1) * n.1 + (view.foc.2
            - view.pos.2) * n.2,
        v.0 * n.0 + v.1 * n.1 + v.2 * n.2,
    )
}

/// One lane of the direction from a point of the lens to the point in
/// which the ray through the centre of the lens meets the focal plane, up
/// to a positive factor.
pub open spec fn aim_lane(v: int, b: int, num: int, den: int) -> int {
    if den > 0 {
        (v * num - b * den) / 0x1_0000
    } else {
        (-(v * num) + b * den) / 0x1_0000
    }
}

/// The origin of the ray of the view through the point `lens` of the lens.
pub open spec fn origin_spec(view: Frustum, lens: Vec4) -> Vec4 {
    Vec4(
        into_lattice(view.pos.0 + bokeh_spec(view, lens).0) as i64,
        into_lattice(view.pos.1 + bokeh_spec(view, lens).1) as i64,
        into_lattice(view.pos.2 + bokeh_spec(view, lens).2) as i64,
        0,
    )
}

/// The direction of the ray of the view through the image point `uv` and
/// the point `lens` of the lens, before it is scaled to unit length. The
/// ray points at the spot of the focal plane that the ray through the
/// centre of the lens meets; where that ray runs along the focal plane, the
/// lens has no part in the direction.
pub open spec fn aim_spec(view: Frustum, uv: Vec4, lens: Vec4) -> Vec4 {
    let v = through_spec(view, uv);
    let b = bokeh_spec(view, lens);
    let (num, den) = focus_spec(view, v);
    if den == 0 {
        v
    } else {
        Vec4(
            aim_lane(v.0 as int, b.0 as int, num, den) as i64,
            aim_lane(v.1 as int, b.1 as int, num, den) as i64,
            aim_lane(v.2 as int, b.2 as int, num, den) as i64,
            0,
        )
    }
}

fn rotate_lane(m: Vec4, v: Vec4, Ghost(b): Ghost<int>) -> (r: i64)
    requires
        fits(m, 2 * ONE),
        0 <= b <= 0x1000_0000,
        fits(v, b),
    ensures
        r == unscale(m.0 * v.0 + m.1 * v.1 + m.2 * v.2),
        -6 * b <= r <= 6 * b,
{
    let g = Ghost(0x2_0000int);
    let h = Ghost(0x1000_0000int);
    let x: i128 = mul_wide(m.0 as i128, v.0 as i128, g, h) + mul_wide(m.1 as i128, v.1 as i128, g, h)
        + mul_wide(m.2 as i128, v.2 as i128, g, h);
    proof {
        crate::geom::fast::lemma_mul_bound(m.0 as int, v.0 as int, 0x2_0000, b);
        crate::geom::fast::lemma_mul_bound(m.1 as int, v.1 as int, 0x2_0000, b);
        crate::geom::fast::lemma_mul_bound(m.2 as int, v.2 as int, 0x2_0000, b);
        assert(0x2_0000 * b == b * 0x2_0000) by (nonlinear_arith);
        lemma_div_bound(x as int, 65536, 6 * b);
    }
    div_floor(x, 65536) as i64
}

/// The product of the matrix with rows `m` and the vector `v`, in fixed point.
fn rotate(m: &[Vec4; 3], v: Vec4, Ghost(b): Ghost<int>) -> (r: Vec4)
    requires
        fits(m[0], 2 * ONE),
        fits(m[1], 2 * ONE),
        fits(m[2], 2 * ONE),
        0 <= b <= 0x1000_0000,
        fits(v, b),
    ensures
        r == rotate_spec(m@, v),
        fits(r, 6 * b),
{
    Vec4(
        rotate_lane(m[0], v, Ghost(b)),
        rotate_lane(m[1], v, Ghost(b)),
        rotate_lane(m[2], v, Ghost(b)),
        0,
    )
}

fn scaled(x: i64, f: i64, Ghost(a): Ghost<int>, Ghost(b): Ghost<int>, Ghost(m): Ghost<int>) -> (r:
    i64)
    requires
        0 <= a <= 0x4_0000,
        0 <= b <= 0x100_0000,
        -a <= x <= a,
        0 <= f <= b,
        0 <= m <= 0x1000_0000,
        a * b <= m * 65536,
    ensures
        r == unscale(x * f),
        -m <= r <= m,
{
    let y: i128 = mul_wide(x as i128, f as i128, Ghost(a), Ghost(b));
    proof {
        lemma_div_bound(y as int, 65536, m);
    }
    div_floor(y, 65536) as i64
}

fn aim(v: i64, b: i64, num: i128, den: i128) -> (r: i64)
    requires
        -0xC_0000 <= v <= 0xC_0000,
        -0x18_0000 <= b <= 0x18_0000,
        -0x30_0000_0000 <= num <= 0x30_0000_0000,
        -0x48_0000_0000 <= den <= 0x48_0000_0000,
        den != 0,
    ensures
        r == aim_lane(v as int, b as int, num as int, den as int),
        -0x4000_0000_0000 <= r <= 0x4000_0000_0000,
{
    let x: i128 = mul_wide(v as i128, num, Ghost(0xC_0000), Ghost(0x30_0000_0000));
    let y: i128 = mul_wide(b as i128, den, Ghost(0x18_0000), Ghost(0x48_0000_0000));
    let z: i128 = if den > 0 {
        x - y
    } else {
        -x + y
    };
    proof {
        lemma_div_bound(z as int, 65536, 0x4000_0000_0000);
    }
    div_floor(z, 65536) as i64
}

impl Frustum {
    /// The parameters are within the ranges of the lattice and of rotations.
    pub open spec fn wf(&self) -> bool {
        &&& in_lattice(self.pos)
        &&& in_lattice(self.foc)
        &&& fits(self.look[0], 2 * ONE)
        &&& fits(self.look[1], 2 * ONE)
        &&& fits(self.look[2], 2 * ONE)
        &&& 0 <= self.f <= TANGENT_MAX
        &&& 0 <= self.aper <= 0x4_0000
    }
}

impl Rectilinear {
    #[verifier::type_invariant]
    spec fn inv(self) -> bool {
        self.frustum.wf()
    }

    /// The parameters of the view.
    pub closed spec fn frustum(self) -> Frustum {
        self.frustum
    }

    /// Creates a rectilinear view at the position `pos` with the rotation
    /// whose rows are `look`, the tangent `f` of half its field of view, the
    /// aperture `aper` and the focal point `foc`.
    pub fn new(pos: Vec4, look: [Vec4; 3], f: i64, aper: i64, foc: Vec4) -> (v: Rectilinear)
        requires
            in_lattice(pos),
            in_lattice(foc),
            fits(look[0], 2 * ONE),
            fits(look[1], 2 * ONE),
            fits(look[2], 2 * ONE),
            0 <= f <= TANGENT_MAX,
            0 <= aper <= 0x4_0000,
        ensures
            v.frustum().pos == pos,
            v.frustum().look == look,
            v.frustum().f == f,
            v.frustum().aper == aper,
            v.frustum().foc == foc,
    {
        Rectilinear { frustum: Frustum { pos: pos, look: look, f: f, aper: aper, foc: foc } }
    }
}

impl Projection for Rectilinear {
    /// The ray from the point `lens` of the lens towards the spot of the
    /// focal plane that the ray through the middle of the lens and the
    /// image point `uv` meets.
    fn get_ray(&self, tracer: &mut Tracer, uv: Vec2, lens: Vec2) -> (r: Ray)
        ensures
            r.p0 == origin_spec(self.frustum(), lens),
            lanes(r.v) == normalize_spec(aim_spec(self.frustum(), uv, lens)),
    {
        proof {
            use_type_invariant(self);
        }
        let view = &self.frustum;
        let image = Vec4(
            scaled(uv.0, view.f, Ghost(0x4_0000), Ghost(0x100_0000), Ghost(0x400_0000)),
            scaled(uv.1, view.f, Ghost(0x4_0000), Ghost(0x100_0000), Ghost(0x400_0000)),
            -ONE,
            0,
        );
        let v = rotate(&view.look, v_normalize(image), Ghost(0x2_0000));
        assert(v == through_spec(*view, uv));
        let n = Vec4(view.look[0].2, view.look[1].2, view.look[2].2, 0);
        let e = Ghost(0x8_0000int);
        let g = Ghost(0x2_0000int);
        let w = Ghost(0xC_0000int);
        let num: i128 = mul_wide(view.foc.0 as i128 - view.pos.0 as i128, n.0 as i128, e, g)
            + mul_wide(view.foc.1 as i128 - view.pos.1 as i128, n.1 as i128, e, g) + mul_wide(
            view.foc.2 as i128 - view.pos.2 as i128,
            n.2 as i128,
            e,
            g,
        );
        let den: i128 = mul_wide(v.0 as i128, n.0 as i128, w, g) + mul_wide(
            v.1 as i128,
            n.1 as i128,
            w,
            g,
        ) + mul_wide(v.2 as i128, n.2 as i128, w, g);
        assert((num as int, den as int) == focus_spec(*view, v));
        let disk = Vec4(
            scaled(lens.0, view.aper, Ghost(0x1_0000), Ghost(0x4_0000), Ghost(0x4_0000)),
            scaled(lens.1, view.aper, Ghost(0x1_0000), Ghost(0x4_0000), Ghost(0x4_0000)),
            0,
            0,
        );
        let bokeh = rotate(&view.look, disk, Ghost(0x4_0000));
        assert(bokeh == bokeh_spec(*view, lens));
        let origin = Vec4(
            lattice(view.pos.0 as i128 + bokeh.0 as i128),
            lattice(view.pos.1 as i128 + bokeh.1 as i128),
            lattice(view.pos.2 as i128 + bokeh.2 as i128),
            0,
        );
        let dir = if den == 0 {
            v
        } else {
            Vec4(aim(v.0, bokeh.0, num, den), aim(v.1, bokeh.1, num, den), aim(v.2, bokeh.2, num, den), 0)
        };
        assert(dir == aim_spec(*view, uv, lens));
        Ray::new(tracer, origin, dir)
    }
}

} // verus!
