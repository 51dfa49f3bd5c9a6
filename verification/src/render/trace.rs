//! The tracer core: rays, the ray/triangle test and closest-hit queries.

use vstd::prelude::*;
use crate::geom::fast::{
    cross_spec, fits, in_lattice, lanes, lemma_mul_bound, magnitude, mul_wide, normalize_spec, v_cross_v,
    unscale, v_normalize, v_of, v_unscale, Vec4, ONE, SMALL_MAX, WIDE_MAX,
};
use crate::geom::scene::{edge, normal_spec, Face, Scene};
use crate::util::color::Color;

verus! {

/// A non-negative rational number `num / den`, or positive infinity when `den` is zero.
#[derive(Copy, Clone, Debug, PartialEq, Eq, Structural)]
pub struct Ratio {
    pub num: i128,
    pub den: i128,
}

/// A ray in three-dimensional space.
pub struct Ray {
    /// The origin of the ray.
    pub p0: Vec4,
    /// The direction of the ray. Distances along the ray are measured in
    /// multiples of this vector.
    pub v: Vec4,
    /// The identifier of this ray within its tracer.
    pub id: u64,
}

/// A collision between a ray and a face of the scene.
#[derive(Copy, Clone, Debug)]
pub struct Collision {
    /// The distance from the ray origin to the collision point.
    pub dist: Ratio,
    /// The index of the face that the ray collided with.
    pub face: usize,
    /// The first two barycentric coordinates of the collision point in the face.
    pub bary: [Ratio; 2],
}

/// Largest numerator of a distance.
pub const DIST_NUM_MAX: i128 = 0xC00_0000_0000_0000;

/// Largest denominator of a distance.
pub const DIST_DEN_MAX: i128 = 0x600_0000_0000_0000;

/// `a <= b`, for ratios with non-negative denominators.
pub open spec fn ratio_le(a: Ratio, b: Ratio) -> bool {
    a.num * b.den <= b.num * a.den
}

/// The distance that no collision reaches.
pub open spec fn infinite() -> Ratio {
    Ratio { num: 1, den: 0 }
}

/// The dot product of the ray direction with the exact normal of the face.
pub open spec fn hit_denom(r: Ray, f: Face) -> int {
    r.v.0 * normal_spec(f.vp@).0 + r.v.1 * normal_spec(f.vp@).1 + r.v.2 * normal_spec(f.vp@).2
}

/// The dot product of the offset from the ray origin to the face with the exact normal.
pub open spec fn hit_numer(r: Ray, f: Face) -> int {
    edge(f.vp[2], r.p0).0 * normal_spec(f.vp@).0 + edge(f.vp[2], r.p0).1 * normal_spec(f.vp@).1
        + edge(f.vp[2], r.p0).2 * normal_spec(f.vp@).2
}

/// The distance along the ray at which it meets the plane of the face, with a
/// positive denominator. Meaningful when `hit_denom` is not zero.
pub open spec fn hit_dist(r: Ray, f: Face) -> Ratio {
    if hit_denom(r, f) < 0 {
        Ratio { num: (-hit_numer(r, f)) as i128, den: (-hit_denom(r, f)) as i128 }
    } else {
        Ratio { num: hit_numer(r, f) as i128, den: hit_denom(r, f) as i128 }
    }
}

/// The offset from the third vertex of the face to the point where the ray
/// meets its plane, multiplied by the denominator of `hit_dist`.
pub open spec fn hit_offset(r: Ray, f: Face) -> (int, int, int) {
    (
        edge(r.p0, f.vp[2]).0 * hit_dist(r, f).den + r.v.0 * hit_dist(r, f).num,
        edge(r.p0, f.vp[2]).1 * hit_dist(r, f).den + r.v.1 * hit_dist(r, f).num,
        edge(r.p0, f.vp[2]).2 * hit_dist(r, f).den + r.v.2 * hit_dist(r, f).num,
    )
}

/// `hit_offset` projected onto the plane of the face.
pub open spec fn hit_pair(r: Ray, f: Face) -> (int, int) {
    match f.plane {
        crate::geom::fast::Plane::XY => (hit_offset(r, f).0, hit_offset(r, f).1),
        crate::geom::fast::Plane::YZ => (hit_offset(r, f).1, hit_offset(r, f).2),
        crate::geom::fast::Plane::XZ => (hit_offset(r, f).0, hit_offset(r, f).2),
    }
}

/// The common denominator of the barycentric coordinates of the meeting point; positive.
pub open spec fn bary_den(r: Ray, f: Face) -> int {
    magnitude(f.det as int) * hit_dist(r, f).den
}

/// The numerator of the first barycentric coordinate of the meeting point.
pub open spec fn bary_num0(r: Ray, f: Face) -> int {
    if f.det < 0 {
        -(f.Tinv.0 * hit_pair(r, f).0 + f.Tinv.1 * hit_pair(r, f).1)
    } else {
        f.Tinv.0 * hit_pair(r, f).0 + f.Tinv.1 * hit_pair(r, f).1
    }
}

/// The numerator of the second barycentric coordinate of the meeting point.
pub open spec fn bary_num1(r: Ray, f: Face) -> int {
    if f.det < 0 {
        -(f.Tinv.2 * hit_pair(r, f).0 + f.Tinv.3 * hit_pair(r, f).1)
    } else {
        f.Tinv.2 * hit_pair(r, f).0 + f.Tinv.3 * hit_pair(r, f).1
    }
}

/// The barycentric coordinates `q0`, `q1` lie in the triangle:
/// `0 <= q0`, `0 <= q1`, `q0 <= 1`, `q1 <= 1` and `q0 + q1 <= 1`.
pub open spec fn contained(r: Ray, f: Face) -> bool {
    &&& 0 <= bary_num0(r, f)
    &&& 0 <= bary_num1(r, f)
    &&& bary_num0(r, f) <= bary_den(r, f)
    &&& bary_num1(r, f) <= bary_den(r, f)
    &&& bary_num0(r, f) + bary_num1(r, f) <= bary_den(r, f)
}

/// The ray meets the face: it is not parallel to the plane of the face, the
/// meeting point is not behind the origin, and it lies in the triangle.
pub open spec fn hits(r: Ray, f: Face) -> bool {
    &&& hit_denom(r, f) != 0
    &&& hit_dist(r, f).num >= 0
    &&& contained(r, f)
}

/// The collision of the ray with face number `fi`, which is `f`.
pub open spec fn collision_spec(r: Ray, f: Face, fi: usize) -> Collision {
    Collision {
        dist: hit_dist(r, f),
        face: fi,
        bary: [
            Ratio { num: bary_num0(r, f) as i128, den: bary_den(r, f) as i128 },
            Ratio { num: bary_num1(r, f) as i128, den: bary_den(r, f) as i128 },
        ],
    }
}

impl Ratio {
    /// A distance: infinite, or a non-negative ratio within the bounds that
    /// intersections of lattice rays with lattice triangles keep.
    pub open spec fn is_dist(&self) -> bool {
        &&& 0 <= self.num <= DIST_NUM_MAX
        &&& 0 <= self.den <= DIST_DEN_MAX
        &&& self.den == 0 ==> self.num == 1
    }
}

impl Ray {
    /// Origin and direction are lattice vectors.
    pub open spec fn wf(&self) -> bool {
        &&& in_lattice(self.p0)
        &&& in_lattice(self.v)
    }
}

/// The ray/triangle test against one face. Reports a collision when the ray
/// meets the face no farther than `coll.dist`, and then records it in `coll`.
pub fn hit_face(r: &Ray, f: &Face, fi: usize, coll: &mut Collision) -> (b: bool)
    requires
        r.wf(),
        f.wf(),
        old(coll).dist.is_dist(),
    ensures
        b == (hits(*r, *f) && ratio_le(hit_dist(*r, *f), old(coll).dist)),
        b ==> *final(coll) == collision_spec(*r, *f, fi),
        !b ==> *final(coll) == *old(coll),
        final(coll).dist.is_dist(),
{
    let e = Ghost(0x8_0000int);
    let l = Ghost(0x4_0000int);
    // the edges and the exact normal
    let ax: i128 = f.vp[0].0 as i128 - f.vp[2].0 as i128;
    let ay: i128 = f.vp[0].1 as i128 - f.vp[2].1 as i128;
    let az: i128 = f.vp[0].2 as i128 - f.vp[2].2 as i128;
    let bx: i128 = f.vp[1].0 as i128 - f.vp[2].0 as i128;
    let by: i128 = f.vp[1].1 as i128 - f.vp[2].1 as i128;
    let bz: i128 = f.vp[1].2 as i128 - f.vp[2].2 as i128;
    let nx: i128 = mul_wide(ay, bz, e, e) - mul_wide(az, by, e, e);
    let ny: i128 = mul_wide(az, bx, e, e) - mul_wide(ax, bz, e, e);
    let nz: i128 = mul_wide(ax, by, e, e) - mul_wide(ay, bx, e, e);
    assert(nx == normal_spec(f.vp@).0);
    assert(ny == normal_spec(f.vp@).1);
    assert(nz == normal_spec(f.vp@).2);
    let n = Ghost(0x80_0000_0000int);

    let denom: i128 = mul_wide(r.v.0 as i128, nx, l, n) + mul_wide(r.v.1 as i128, ny, l, n)
        + mul_wide(r.v.2 as i128, nz, l, n);
    assert(denom == hit_denom(*r, *f));
    if denom == 0 {
        return false;
    }
    let ox: i128 = f.vp[2].0 as i128 - r.p0.0 as i128;
    let oy: i128 = f.vp[2].1 as i128 - r.p0.1 as i128;
    let oz: i128 = f.vp[2].2 as i128 - r.p0.2 as i128;
    let numer: i128 = mul_wide(ox, nx, e, n) + mul_wide(oy, ny, e, n) + mul_wide(oz, nz, e, n);
    assert(numer == hit_numer(*r, *f));
    let (tn, td): (i128, i128) = if denom < 0 {
        (-numer, -denom)
    } else {
        (numer, denom)
    };
    assert(Ratio { num: tn, den: td } == hit_dist(*r, *f));
    if tn < 0 {
        return false;
    }
    let dn = Ghost(DIST_NUM_MAX as int);
    let dd = Ghost(DIST_DEN_MAX as int);
    // farther than the best distance so far
    if mul_wide(tn, coll.dist.den, dn, dd) > mul_wide(coll.dist.num, td, dn, dd) {
        return false;
    }
    // the meeting point, relative to the third vertex and scaled by `td`
    let rx: i128 = mul_wide(-ox, td, e, dd) + mul_wide(r.v.0 as i128, tn, l, dn);
    let ry: i128 = mul_wide(-oy, td, e, dd) + mul_wide(r.v.1 as i128, tn, l, dn);
    let rz: i128 = mul_wide(-oz, td, e, dd) + mul_wide(r.v.2 as i128, tn, l, dn);
    assert((rx as int, ry as int, rz as int) == hit_offset(*r, *f));
    let (p0, p1): (i128, i128) = match f.plane {
        crate::geom::fast::Plane::XY => (rx, ry),
        crate::geom::fast::Plane::YZ => (ry, rz),
        crate::geom::fast::Plane::XZ => (rx, rz),
    };
    assert((p0 as int, p1 as int) == hit_pair(*r, *f));
    let pm = Ghost(0x6000_0000_0000_0000_0000int);
    let s0: i128 = mul_wide(f.Tinv.0 as i128, p0, e, pm) + mul_wide(f.Tinv.1 as i128, p1, e, pm);
    let s1: i128 = mul_wide(f.Tinv.2 as i128, p0, e, pm) + mul_wide(f.Tinv.3 as i128, p1, e, pm);
    let (q0, q1, m): (i128, i128, i128) = if f.det < 0 {
        (-s0, -s1, -(f.det as i128))
    } else {
        (s0, s1, f.det as i128)
    };
    let w: i128 = mul_wide(m, td, n, dd);
    assert(q0 == bary_num0(*r, *f));
    assert(q1 == bary_num1(*r, *f));
    assert(w == bary_den(*r, *f));
    if 0 <= q0 && 0 <= q1 && q0 <= w && q1 <= w && q0 + q1 <= w {
        coll.dist = Ratio { num: tn, den: td };
        coll.face = fi;
        coll.bary = [Ratio { num: q0, den: w }, Ratio { num: q1, den: w }];
        true
    } else {
        false
    }
}

/// What a closest-hit query owes: `None` where the ray meets no face, and
/// otherwise the collision with a face that it meets at the least distance
/// among all faces that it meets.
pub open spec fn closest(r: Ray, faces: Seq<Face>, c: Option<Collision>) -> bool {
    match c {
        None => forall|i: int| 0 <= i < faces.len() ==> !hits(r, #[trigger] faces[i]),
        Some(c) => {
            &&& c.face < faces.len()
            &&& hits(r, faces[c.face as int])
            &&& c == collision_spec(r, faces[c.face as int], c.face)
            &&& forall|i: int|
                0 <= i < faces.len() && hits(r, #[trigger] faces[i]) ==> ratio_le(
                    c.dist,
                    hit_dist(r, faces[i]),
                )
        },
    }
}

/// The ray meets some face.
pub open spec fn meets_any(r: Ray, faces: Seq<Face>) -> bool {
    exists|i: int| 0 <= i < faces.len() && hits(r, #[trigger] faces[i])
}

/// The vector perpendicular to `b1` from which `basis_from_b1` starts.
pub open spec fn perpendicular(b1: Vec4) -> Vec4 {
    if b1.0 != 0 || b1.1 != 0 {
        Vec4(b1.1, (-b1.0) as i64, 0, 0)
    } else {
        Vec4(0, (-b1.2) as i64, b1.1, 0)
    }
}

/// The fixed-point direction of the sun before normalisation.
pub open spec fn sun_direction() -> Vec4 {
    Vec4(39322, (-131072) as i64, (-26214) as i64, 0)
}

/// A tracer: the light model of a render worker, its ray identifiers and
/// its per-face stamps.
pub struct Tracer {
    /// The colour of a ray that leaves the scene.
    pub horizon: Color,
    /// The greatest recursion depth of a path.
    pub max_depth: usize,
    /// An orthogonal frame whose middle vector points along the sun's rays.
    pub sun_basis: [Vec4; 3],
    /// The identifier of the next ray.
    pub next_id: u64,
    /// For each face, the identifier of the last ray that was tested against it.
    pub last_ids: Vec<u64>,
}

impl Tracer {
    /// Every stamp was left by a ray that this tracer has issued, and the
    /// light model is within the ranges of colours and of unit vectors.
    pub open spec fn wf(&self) -> bool {
        &&& forall|i: int|
            0 <= i < self.last_ids.len() ==> (#[trigger] self.last_ids[i]) < self.next_id
        &&& -ONE <= self.horizon.r <= ONE
        &&& -ONE <= self.horizon.g <= ONE
        &&& -ONE <= self.horizon.b <= ONE
        &&& fits(self.sun_basis[0], 8 * ONE)
        &&& fits(self.sun_basis[1], 8 * ONE)
        &&& fits(self.sun_basis[2], 8 * ONE)
    }

    /// No face bears the stamp of ray `id` yet, and the tracer has issued `id`.
    pub open spec fn fresh(&self, id: u64) -> bool {
        &&& id < self.next_id
        &&& forall|i: int| 0 <= i < self.last_ids.len() ==> (#[trigger] self.last_ids[i]) < id
    }

    /// Creates a tracer for a scene of `nfaces` faces.
    pub fn new(_branch: usize, max_depth: usize, nfaces: usize) -> (t: Tracer)
        ensures
            t.wf(),
            t.max_depth == max_depth,
            t.next_id == 1,
            t.last_ids@ == Seq::new(nfaces as nat, |i: int| 0u64),
            t.horizon == (Color { r: 20316, g: 26870, b: 47186 }),
            lanes(t.sun_basis[1]) == normalize_spec(sun_direction()),
            t.sun_basis@ == basis_spec(t.sun_basis[1]),
    {
        let sun_dir = v_normalize(Vec4(39322, -131072, -26214, 0));
        let (b0, b1, b2) = basis_from_b1(sun_dir);
        let mut last_ids: Vec<u64> = Vec::new();
        let mut i: usize = 0;
        while i < nfaces
            invariant
                i <= nfaces,
                last_ids@ == Seq::new(i as nat, |k: int| 0u64),
            decreases nfaces - i,
        {
            last_ids.push(0);
            i = i + 1;
            assert(last_ids@ == Seq::new(i as nat, |k: int| 0u64));
        }
        Tracer {
            horizon: Color::new(20316, 26870, 47186),
            max_depth: max_depth,
            sun_basis: [b0, b1, b2],
            next_id: 1,
            last_ids: last_ids,
        }
    }

    /// Issues the identifier of the next ray.
    pub fn get_next_id(&mut self) -> (id: u64)
        requires
            old(self).wf(),
            old(self).next_id < u64::MAX,
        ensures
            id == old(self).next_id,
            final(self).next_id == id + 1,
            final(self).last_ids == old(self).last_ids,
            final(self).horizon == old(self).horizon,
            final(self).max_depth == old(self).max_depth,
            final(self).sun_basis == old(self).sun_basis,
            final(self).wf(),
            final(self).fresh(id),
    {
        let id = self.next_id;
        self.next_id = id + 1;
        id
    }
}

/// The frame that `basis_from_b1` builds around `b1`.
pub open spec fn basis_spec(b1: Vec4) -> Seq<Vec4> {
    let b0 = v_of(normalize_spec(perpendicular(b1)));
    let c = cross_spec(b0, b1);
    seq![b0, b1, v_of((unscale(c.0), unscale(c.1), unscale(c.2), 0int))]
}

/// Builds a frame around `b1`: a unit vector perpendicular to it, `b1`
/// itself, and the fixed-point cross product of the two.
pub fn basis_from_b1(b1: Vec4) -> (r: (Vec4, Vec4, Vec4))
    requires
        fits(b1, SMALL_MAX as int),
    ensures
        seq![r.0, r.1, r.2] == basis_spec(b1),
        r.1 == b1,
        fits(r.0, 2 * ONE),
        fits(b1, 2 * ONE) ==> fits(r.2, 8 * ONE),
{
    let b0 = v_normalize(
        if b1.0 != 0 || b1.1 != 0 {
            Vec4(b1.1, -b1.0, 0, 0)
        } else {
            Vec4(0, -b1.2, b1.1, 0)
        },
    );
    let b2 = v_unscale(v_cross_v(b0, b1));
    assert(b0 == v_of(normalize_spec(perpendicular(b1))));
    proof {
        if fits(b1, 2 * ONE) {
            let x = cross_spec(b0, b1);
            lemma_mul_bound(b0.1 as int, b1.2 as int, 0x2_0000, 0x2_0000);
            lemma_mul_bound(b0.2 as int, b1.1 as int, 0x2_0000, 0x2_0000);
            lemma_mul_bound(b0.2 as int, b1.0 as int, 0x2_0000, 0x2_0000);
            lemma_mul_bound(b0.0 as int, b1.2 as int, 0x2_0000, 0x2_0000);
            lemma_mul_bound(b0.0 as int, b1.1 as int, 0x2_0000, 0x2_0000);
            lemma_mul_bound(b0.1 as int, b1.0 as int, 0x2_0000, 0x2_0000);
            assert(-0x8_0000 <= x.0 / 65536 <= 0x8_0000 && -0x8_0000 <= x.1 / 65536 <= 0x8_0000
                && -0x8_0000 <= x.2 / 65536 <= 0x8_0000) by (nonlinear_arith)
                requires
                    -0x8_0000_0000 <= x.0 <= 0x8_0000_0000,
                    -0x8_0000_0000 <= x.1 <= 0x8_0000_0000,
                    -0x8_0000_0000 <= x.2 <= 0x8_0000_0000,
            ;
        }
    }
    (b0, b1, b2)
}

impl Ray {
    /// Creates a ray with the given origin, the given direction scaled to
    /// fixed-point unit length, and the next identifier of the tracer.
    pub fn new(t: &mut Tracer, p0: Vec4, v: Vec4) -> (r: Ray)
        requires
            old(t).wf(),
            old(t).next_id < u64::MAX,
            in_lattice(p0),
            fits(v, WIDE_MAX as int),
            v.3 == 0,
        ensures
            r.p0 == p0,
            lanes(r.v) == normalize_spec(v),
            r.id == old(t).next_id,
            r.wf(),
            final(t).next_id == r.id + 1,
            final(t).last_ids == old(t).last_ids,
            final(t).horizon == old(t).horizon,
            final(t).max_depth == old(t).max_depth,
            final(t).sun_basis == old(t).sun_basis,
            final(t).wf(),
            final(t).fresh(r.id),
    {
        let n = v_normalize(v);
        Ray { p0: p0, v: Vec4(n.0, n.1, n.2, 0), id: t.get_next_id() }
    }

    /// Whether the ray meets any face of the scene.
    pub fn trace_any(&self, t: &mut Tracer, sc: &Scene) -> (b: bool)
        requires
            self.wf(),
            sc.wf(),
            old(t).wf(),
            old(t).last_ids.len() == sc.f.len(),
            old(t).fresh(self.id),
        ensures
            b == meets_any(*self, sc.f@),
            final(t).wf(),
            final(t).last_ids.len() == sc.f.len(),
            final(t).next_id == old(t).next_id,
            final(t).horizon == old(t).horizon,
            final(t).max_depth == old(t).max_depth,
            final(t).sun_basis == old(t).sun_basis,
    {
        let mut coll = Collision {
            dist: Ratio { num: 1, den: 0 },
            face: 0,
            bary: [Ratio { num: 0, den: 1 }, Ratio { num: 0, den: 1 }],
        };
        let found = sc.kd.query(self, &sc.f, &mut t.last_ids, &mut coll, true);
        proof {
            if !found {
                assert forall|i: int| 0 <= i < sc.f.len() implies !hits(*self, #[trigger] sc.f[i]) by {
                    if hits(*self, sc.f[i]) {
                        crate::render::inside::lemma_hit_bounds(*self, sc.f[i]);
                        assert(ratio_le(coll.dist, hit_dist(*self, sc.f[i])));
                    }
                }
            }
        }
        found
    }

    /// Traces the ray through the scene and finds its closest collision, if any.
    pub fn trace(&self, t: &mut Tracer, sc: &Scene) -> (r: Option<Collision>)
        requires
            self.wf(),
            sc.wf(),
            old(t).wf(),
            old(t).last_ids.len() == sc.f.len(),
            old(t).fresh(self.id),
        ensures
            closest(*self, sc.f@, r),
            final(t).wf(),
            final(t).last_ids.len() == sc.f.len(),
            final(t).next_id == old(t).next_id,
            final(t).horizon == old(t).horizon,
            final(t).max_depth == old(t).max_depth,
            final(t).sun_basis == old(t).sun_basis,
    {
        let mut coll = Collision {
            dist: Ratio { num: 1, den: 0 },
            face: 0,
            bary: [Ratio { num: 0, den: 1 }, Ratio { num: 0, den: 1 }],
        };
        sc.kd.query(self, &sc.f, &mut t.last_ids, &mut coll, false);
        if coll.dist.den != 0 {
            Some(coll)
        } else {
            proof {
                assert forall|i: int| 0 <= i < sc.f.len() implies !hits(*self, #[trigger] sc.f[i]) by {
                    if hits(*self, sc.f[i]) {
                        crate::render::inside::lemma_hit_bounds(*self, sc.f[i]);
                        assert(ratio_le(coll.dist, hit_dist(*self, sc.f[i])));
                    }
                }
            }
            None
        }
    }

    /// Finds the closest collision of the ray by testing every face of the
    /// scene in turn, without the tree.
    pub fn trace_linear(&self, sc: &Scene) -> (r: Option<Collision>)
        requires
            self.wf(),
            forall|i: int| 0 <= i < sc.f.len() ==> (#[trigger] sc.f[i]).wf(),
        ensures
            closest(*self, sc.f@, r),
    {
        let mut coll = Collision {
            dist: Ratio { num: 1, den: 0 },
            face: 0,
            bary: [Ratio { num: 0, den: 1 }, Ratio { num: 0, den: 1 }],
        };
        let mut i: usize = 0;
        while i < sc.f.len()
            invariant
                i <= sc.f.len(),
                self.wf(),
                forall|k: int| 0 <= k < sc.f.len() ==> (#[trigger] sc.f[k]).wf(),
                coll.dist.is_dist(),
                coll.dist.den != 0 ==> coll.face < i && hits(*self, sc.f[coll.face as int])
                    && coll == collision_spec(*self, sc.f[coll.face as int], coll.face),
                forall|k: int|
                    0 <= k < i && hits(*self, #[trigger] sc.f[k]) ==> ratio_le(
                        coll.dist,
                        hit_dist(*self, sc.f[k]),
                    ),
            decreases sc.f.len() - i,
        {
            let ghost before = coll;
            let b = hit_face(self, &sc.f[i], i, &mut coll);
            proof {
                let d = hit_dist(*self, sc.f[i as int]);
                crate::render::inside::lemma_hit_bounds(*self, sc.f[i as int]);
                assert forall|k: int| 0 <= k < i + 1 && hits(*self, #[trigger] sc.f[k]) implies ratio_le(
                    coll.dist,
                    hit_dist(*self, sc.f[k]),
                ) by {
                    crate::render::inside::lemma_hit_bounds(*self, sc.f[k]);
                    if k < i && b {
                        crate::geom::kd::lemma_ratio_trans(d, before.dist, hit_dist(*self, sc.f[k]));
                    }
                }
            }
            i = i + 1;
        }
        if coll.dist.den != 0 {
            Some(coll)
        } else {
            proof {
                assert forall|k: int| 0 <= k < sc.f.len() implies !hits(*self, #[trigger] sc.f[k]) by {
                    if hits(*self, sc.f[k]) {
                        crate::render::inside::lemma_hit_bounds(*self, sc.f[k]);
                        assert(ratio_le(coll.dist, hit_dist(*self, sc.f[k])));
                    }
                }
            }
            None
        }
    }

    /// The ray/triangle test against face `fi` of the scene. Reports a
    /// collision when the ray meets the face no farther than `coll.dist`,
    /// and then records it in `coll`.
    pub fn hit(&self, sc: &Scene, fi: usize, coll: &mut Collision) -> (b: bool)
        requires
            self.wf(),
            fi < sc.f.len(),
            sc.f[fi as int].wf(),
            old(coll).dist.is_dist(),
        ensures
            b == (hits(*self, sc.f[fi as int]) && ratio_le(
                hit_dist(*self, sc.f[fi as int]),
                old(coll).dist,
            )),
            b ==> *final(coll) == collision_spec(*self, sc.f[fi as int], fi),
            !b ==> *final(coll) == *old(coll),
            final(coll).dist.is_dist(),
    {
        hit_face(self, &sc.f[fi], fi, coll)
    }
}

/// Two distances are equal.
pub open spec fn ratio_eq(a: Ratio, b: Ratio) -> bool {
    a.num * b.den == b.num * a.den
}

/// The ray meets some face at a distance greater than zero.
pub open spec fn meets_beyond(r: Ray, faces: Seq<Face>) -> bool {
    exists|i: int| 0 <= i < faces.len() && hits(r, #[trigger] faces[i]) && hit_dist(r, faces[i]).num > 0
}

/// The closest-hit query of the tree and the test of all faces in turn
/// agree: whatever each of them returns for a ray, both find a collision or
/// neither does, and the collisions that they find are equally far; so the
/// tree never returns a farther collision than the test of all faces.
pub proof fn lemma_tree_agrees_with_linear(
    r: Ray,
    faces: Seq<Face>,
    tree: Option<Collision>,
    linear: Option<Collision>,
)
    requires
        closest(r, faces, tree),
        closest(r, faces, linear),
    ensures
        tree.is_some() == linear.is_some(),
        tree.is_some() ==> ratio_eq(tree.unwrap().dist, linear.unwrap().dist),
{
    if tree is Some && linear is Some {
        let a = tree.unwrap();
        let b = linear.unwrap();
        assert(hits(r, faces[a.face as int]));
        assert(hits(r, faces[b.face as int]));
        assert(ratio_le(a.dist, hit_dist(r, faces[b.face as int])));
        assert(ratio_le(b.dist, hit_dist(r, faces[a.face as int])));
        assert(a.dist == hit_dist(r, faces[a.face as int]));
        assert(b.dist == hit_dist(r, faces[b.face as int]));
    } else if tree is Some {
        assert(hits(r, faces[tree.unwrap().face as int]));
    } else if linear is Some {
        assert(hits(r, faces[linear.unwrap().face as int]));
    }
}

/// Where no face is met at the very origin of the ray, the any-hit query
/// says whether the ray meets a face at a distance greater than zero.
pub proof fn lemma_any_hit_beyond(r: Ray, faces: Seq<Face>)
    requires
        forall|i: int|
            0 <= i < faces.len() && hits(r, #[trigger] faces[i]) ==> hit_dist(r, faces[i]).num != 0,
    ensures
        meets_any(r, faces) == meets_beyond(r, faces),
{
    if meets_any(r, faces) {
        let i = choose|i: int| 0 <= i < faces.len() && hits(r, #[trigger] faces[i]);
        assert(hit_dist(r, faces[i]).num > 0);
    }
}

} // verus!
