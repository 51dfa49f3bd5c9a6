//! Scene data in the form the tracer reads: faces with their precomputed
//! projection plane and barycentric transform.

use vstd::prelude::*;
use crate::geom::kd::{all_indices, is_triangle, triangles_of, Decoder, Partition, KD};
use crate::geom::fast::{fits, v_of};
use crate::load::obj::{FaceVertex, Importer, MAX_FACES};
use crate::geom::fast::{
    cross_spec, in_lattice, lanes, lemma_mul_bound, magnitude, mul_wide, normalize_spec,
    proj_spec, signed_area, v_cross_v, v_normalize, v_sub_v, Mat2x2, Plane, Vec4, LATTICE_MAX, ONE,
};

verus! {

/// A vertex position: a lattice point.
pub type Vertex = Vec4;

/// A colour: fixed-point red, green and blue in the first three lanes.
pub type Color = Vec4;

/// A vertex or face normal, in fixed point.
pub type Normal = Vec4;

/// A triangle of the scene.
#[derive(Debug)]
pub struct Face {
    /// The positions of the three vertices.
    pub vp: [Vertex; 3],
    /// The colours of the vertices: white unless an importer supplied others.
    pub vc: [Color; 3],
    /// The normals of the vertices: the face normal unless an importer
    /// supplied others or asked for smoothing.
    pub vn: [Normal; 3],
    /// The face normal, of fixed-point unit length.
    pub n: Normal,
    /// The axis plane in which the projected triangle has the largest area.
    pub plane: Plane,
    /// The inverse of `T = (c0 - c2 | c1 - c2)`, where `c0..c2` are the
    /// vertices projected onto `plane`, held as the numerators of its four
    /// entries over the common denominator `det`. Applied to a projected point
    /// minus `c2` it gives the first two barycentric coordinates of the point.
    pub Tinv: Mat2x2,
    /// The determinant of `T`; never zero.
    pub det: i64,
}

/// How the vertex normals and colours of a face are chosen when the import ends.
pub struct FaceOptions {
    /// Whether a vertex without a normal record gets the smoothed normal of its position.
    pub smooth: bool,
    /// For each vertex the index of its normal record, or else of its position record.
    pub use_normal: [Result<usize, usize>; 3],
    /// For each vertex the index of its texture coordinate record, if it has one.
    pub use_color: [Option<usize>; 3],
}

/// Collects the records of a scene and builds the scene from them.
pub struct SceneBuilder {
    /// The vertex position records.
    pub vp: Vec<Vertex>,
    /// For each position the sum of the normals of the faces around it.
    pub vn_acc: Vec<Normal>,
    /// The texture coordinate records, read as colours.
    pub vc: Vec<Color>,
    /// The vertex normal records, of fixed-point unit length.
    pub vn: Vec<Normal>,
    /// The faces created so far.
    pub f: Vec<Face>,
    /// For each face its options.
    pub fo: Vec<FaceOptions>,
    /// The number of face records that were dropped for having no area.
    pub dropped_faces: usize,
    /// Whether finalising replaces the vertex colours.
    pub use_color: bool,
    /// The face records taken so far, created or dropped.
    pub records: Ghost<Seq<Seq<FaceVertex>>>,
}

/// An immutable scene: its faces and the k-d tree over all of them.
pub struct Scene {
    pub f: Vec<Face>,
    pub kd: KD,
}

/// The vertex normals and colours of a face are within the ranges of unit
/// vectors and of colours.
pub open spec fn shadable(f: Face) -> bool {
    &&& fits(f.vn[0], 2 * ONE)
    &&& fits(f.vn[1], 2 * ONE)
    &&& fits(f.vn[2], 2 * ONE)
    &&& fits(f.vc[0], ONE as int)
    &&& fits(f.vc[1], ONE as int)
    &&& fits(f.vc[2], ONE as int)
}

impl Scene {
    /// Every face of the scene can be shaded.
    pub open spec fn shadable(&self) -> bool {
        forall|i: int| 0 <= i < self.f.len() ==> shadable(#[trigger] self.f[i])
    }

    /// Every face is well-formed and the tree is the one built over all faces.
    pub open spec fn wf(&self) -> bool {
        &&& forall|i: int| 0 <= i < self.f.len() ==> (#[trigger] self.f[i]).wf()
        &&& self.kd.built(triangles_of(self.f@), all_indices(self.f@.len()), Partition::X(0))
    }
}

/// The edge from `b` to `a`.
pub open spec fn edge(a: Vec4, b: Vec4) -> Vec4 {
    Vec4((a.0 - b.0) as i64, (a.1 - b.1) as i64, (a.2 - b.2) as i64, (a.3 - b.3) as i64)
}

/// The exact, unnormalised normal of the triangle: the cross product of its
/// edges `v0 - v2` and `v1 - v2`.
pub open spec fn normal_spec(vp: Seq<Vec4>) -> (int, int, int, int) {
    cross_spec(edge(vp[0], vp[2]), edge(vp[1], vp[2]))
}

/// The area of the parallelogram on the triangle's edges, projected onto `p`.
pub open spec fn projected_area(vp: Seq<Vec4>, p: Plane) -> int {
    magnitude(signed_area(p, edge(vp[0], vp[2]), edge(vp[1], vp[2])))
}

/// The three vertices lie on one line: the triangle has no area in any projection.
pub open spec fn collinear(vp: Seq<Vec4>) -> bool {
    &&& projected_area(vp, Plane::XY) == 0
    &&& projected_area(vp, Plane::YZ) == 0
    &&& projected_area(vp, Plane::XZ) == 0
}

/// The projection plane of a triangle: the first of XY, YZ, XZ whose projected
/// area is not exceeded by another.
pub open spec fn plane_spec(vp: Seq<Vec4>) -> Plane {
    if projected_area(vp, Plane::XY) >= projected_area(vp, Plane::YZ) && projected_area(
        vp,
        Plane::XY,
    ) >= projected_area(vp, Plane::XZ) {
        Plane::XY
    } else if projected_area(vp, Plane::YZ) >= projected_area(vp, Plane::XZ) {
        Plane::YZ
    } else {
        Plane::XZ
    }
}

/// The determinant of `T` for the triangle projected onto `p`.
pub open spec fn det_spec(vp: Seq<Vec4>, p: Plane) -> int {
    signed_area(p, edge(vp[0], vp[2]), edge(vp[1], vp[2]))
}

/// The numerators of the inverse of `T` for the triangle projected onto `p`, row-major.
pub open spec fn adjugate_spec(vp: Seq<Vec4>, p: Plane) -> (int, int, int, int) {
    let c0 = proj_spec(p, edge(vp[0], vp[2]));
    let c1 = proj_spec(p, edge(vp[1], vp[2]));
    (c1.1 as int, -c1.0, -c0.1, c0.0 as int)
}

/// The numerators of the pair that the inverse transform of `f` makes of the projected pair `p`.
pub open spec fn apply_inverse(f: Face, p: Vec4) -> (int, int) {
    (f.Tinv.0 * p.0 + f.Tinv.1 * p.1, f.Tinv.2 * p.0 + f.Tinv.3 * p.1)
}

/// The colour of a vertex without texture coordinate: opaque white.
pub open spec fn white() -> Vec4 {
    Vec4(ONE, ONE, ONE, 0)
}

/// The face `f` is the face that `Face::new` creates on the vertices `vp`:
/// plane, transform and determinant as its well-formedness gives them, the
/// exact normal scaled to unit length as its normal and as the normal of
/// every vertex, and every vertex white.
pub open spec fn created(f: Face, vp: Seq<Vec4>) -> bool {
    &&& f.wf()
    &&& f.vp@ == vp
    &&& lanes(f.n) == normalize_spec(v_of(normal_spec(vp)))
    &&& f.vn@ == seq![f.n, f.n, f.n]
    &&& f.vc@ == seq![white(), white(), white()]
}

/// The options of the face of a record: the face is smooth, each vertex
/// uses its normal record or else its position, and its texture coordinate
/// record if it has one.
pub open spec fn record_options(o: FaceOptions, fin: [FaceVertex; 3]) -> bool {
    &&& o.smooth
    &&& forall|k: int|
        0 <= k < 3 ==> #[trigger] o.use_normal[k] == (match fin[k].n {
            Some(i) => Ok::<usize, usize>(i),
            None => Err::<usize, usize>(fin[k].p),
        })
    &&& forall|k: int| 0 <= k < 3 ==> #[trigger] o.use_color[k] == fin[k].t
}

/// The accumulated normals after the normal `n` was added at position `p`.
pub open spec fn accumulated(acc: Seq<Vec4>, p: usize, n: Vec4) -> Seq<Vec4> {
    acc.update(p as int, v_of(crate::geom::fast::add_spec(acc[p as int], n)))
}

impl Face {
    /// The geometric fields of the face are those that `new` computes from its vertices.
    pub open spec fn wf(&self) -> bool {
        &&& in_lattice(self.vp[0])
        &&& in_lattice(self.vp[1])
        &&& in_lattice(self.vp[2])
        &&& self.plane == plane_spec(self.vp@)
        &&& self.det == det_spec(self.vp@, self.plane)
        &&& self.det != 0
        &&& lanes(self.Tinv) == adjugate_spec(self.vp@, self.plane)
    }

    /// Builds the face on three lattice points, or `None` when they are collinear.
    pub fn new(vp: [Vertex; 3]) -> (r: Option<Face>)
        requires
            in_lattice(vp[0]),
            in_lattice(vp[1]),
            in_lattice(vp[2]),
        ensures
            r.is_none() <==> collinear(vp@),
            r matches Some(f) ==> {
                &&& created(f, vp@)
                &&& fits(f.n, 2 * ONE)
                &&& shadable(f)
                &&& forall|p: Plane|
                    projected_area(vp@, f.plane) >= #[trigger] projected_area(vp@, p)
            },
    {
        let e02 = v_sub_v(vp[0], vp[2]);
        let e12 = v_sub_v(vp[1], vp[2]);
        assert(e02 == edge(vp[0], vp[2]));
        assert(e12 == edge(vp[1], vp[2]));

        let a_xy = Plane::XY.area(e02, e12);
        let a_yz = Plane::YZ.area(e02, e12);
        let a_xz = Plane::XZ.area(e02, e12);
        let plane = if a_xy >= a_yz && a_xy >= a_xz {
            Plane::XY
        } else if a_yz >= a_xz {
            Plane::YZ
        } else {
            Plane::XZ
        };

        let c0 = plane.proj(e02);
        let c1 = plane.proj(e12);
        let g = Ghost(2 * LATTICE_MAX as int);
        let det: i128 = mul_wide(c0.0 as i128, c1.1 as i128, g, g) - mul_wide(
            c0.1 as i128,
            c1.0 as i128,
            g,
            g,
        );
        assert(det == det_spec(vp@, plane));
        if det == 0 {
            return None;
        }
        let tinv = Vec4(c1.1, -c1.0, -c0.1, c0.0);

        let c = Vec4(ONE, ONE, ONE, 0);
        let x = v_cross_v(e02, e12);
        proof {
            lemma_normal_bound(vp@);
        }
        let n = v_normalize(x);
        assert(x == v_of(normal_spec(vp@)));
        Some(Face { vp: vp, vc: [c, c, c], vn: [n, n, n], n: n, plane: plane, Tinv: tinv, det: det as i64 })
    }
}

/// The exact normal of a lattice triangle fits the lanes that normalisation accepts.
pub proof fn lemma_normal_bound(vp: Seq<Vec4>)
    requires
        vp.len() == 3,
        in_lattice(vp[0]),
        in_lattice(vp[1]),
        in_lattice(vp[2]),
    ensures
        -0x80_0000_0000 <= normal_spec(vp).0 <= 0x80_0000_0000,
        -0x80_0000_0000 <= normal_spec(vp).1 <= 0x80_0000_0000,
        -0x80_0000_0000 <= normal_spec(vp).2 <= 0x80_0000_0000,
{
    let a = edge(vp[0], vp[2]);
    let b = edge(vp[1], vp[2]);
    lemma_mul_bound(a.1 as int, b.2 as int, 0x8_0000, 0x8_0000);
    lemma_mul_bound(a.2 as int, b.1 as int, 0x8_0000, 0x8_0000);
    lemma_mul_bound(a.2 as int, b.0 as int, 0x8_0000, 0x8_0000);
    lemma_mul_bound(a.0 as int, b.2 as int, 0x8_0000, 0x8_0000);
    lemma_mul_bound(a.0 as int, b.1 as int, 0x8_0000, 0x8_0000);
    lemma_mul_bound(a.1 as int, b.0 as int, 0x8_0000, 0x8_0000);
}

/// The inverse transform of a face takes its own three vertices, projected
/// and taken relative to the third, to the barycentric coordinates `(1, 0)`,
/// `(0, 1)` and `(0, 0)`: the numerators are `(det, 0)`, `(0, det)` and
/// `(0, 0)` over the denominator `det`.
pub proof fn lemma_inverse_round_trip(f: Face)
    requires
        f.wf(),
    ensures
        apply_inverse(f, proj_spec(f.plane, edge(f.vp[0], f.vp[2]))) == (f.det as int, 0int),
        apply_inverse(f, proj_spec(f.plane, edge(f.vp[1], f.vp[2]))) == (0int, f.det as int),
        apply_inverse(f, proj_spec(f.plane, edge(f.vp[2], f.vp[2]))) == (0int, 0int),
{
    let c0 = proj_spec(f.plane, edge(f.vp[0], f.vp[2]));
    let c1 = proj_spec(f.plane, edge(f.vp[1], f.vp[2]));
    let (a, c) = (c0.0 as int, c0.1 as int);
    let (b, d) = (c1.0 as int, c1.1 as int);
    assert(f.det == a * d - c * b);
    assert(d * a + (-b) * c == a * d - c * b) by (nonlinear_arith);
    assert((-c) * a + a * c == 0) by (nonlinear_arith);
    assert(d * b + (-b) * d == 0) by (nonlinear_arith);
    assert((-c) * b + a * d == a * d - c * b) by (nonlinear_arith);
    let z = proj_spec(f.plane, edge(f.vp[2], f.vp[2]));
    assert(z.0 == 0 && z.1 == 0);
    assert(d * 0 + (-b) * 0 == 0) by (nonlinear_arith);
    assert((-c) * 0 + a * 0 == 0) by (nonlinear_arith);
}

/// The options of a face name records of the builder.
pub open spec fn options_refer(o: FaceOptions, nvert: nat, ntexc: nat, nnorm: nat) -> bool {
    &&& option_refers(o.use_normal[0], o.use_color[0], nvert, ntexc, nnorm)
    &&& option_refers(o.use_normal[1], o.use_color[1], nvert, ntexc, nnorm)
    &&& option_refers(o.use_normal[2], o.use_color[2], nvert, ntexc, nnorm)
}

/// The options of one vertex name records of the builder.
pub open spec fn option_refers(
    n: Result<usize, usize>,
    c: Option<usize>,
    nvert: nat,
    ntexc: nat,
    nnorm: nat,
) -> bool {
    &&& n matches Ok(ni) ==> ni < nnorm
    &&& n matches Err(vi) ==> vi < nvert
    &&& c matches Some(ci) ==> ci < ntexc
}

/// The normal that finalising gives vertex `k` of face `i`: its normal
/// record if it has one, or else the smoothed normal of its position if the
/// face is smooth, or else the face normal.
pub open spec fn final_normal(b: SceneBuilder, acc: Seq<Vec4>, i: int, k: int) -> Vec4 {
    match b.fo[i].use_normal[k] {
        Ok(ni) => b.vn[ni as int],
        Err(vi) => if b.fo[i].smooth {
            acc[vi as int]
        } else {
            b.f[i].n
        },
    }
}

/// The colour that finalising gives vertex `k` of face `i`: its texture
/// coordinate record if it has one, or else white; its old colour where the
/// builder does not use colours.
pub open spec fn final_color(b: SceneBuilder, i: int, k: int) -> Vec4 {
    if b.use_color {
        match b.fo[i].use_color[k] {
            Some(ci) => b.vc[ci as int],
            None => white(),
        }
    } else {
        b.f[i].vc[k]
    }
}

/// The face `g` is the face `f` with other vertex normals and colours.
pub open spec fn same_geometry(f: Face, g: Face) -> bool {
    &&& g.vp == f.vp
    &&& g.n == f.n
    &&& g.plane == f.plane
    &&& g.Tinv == f.Tinv
    &&& g.det == f.det
}

impl SceneBuilder {
    /// The records are consistent: every face is well-formed, and every
    /// index that a face holds names a record.
    pub open spec fn wf(&self) -> bool {
        &&& self.vn_acc.len() == self.vp.len()
        &&& self.fo.len() == self.f.len()
        &&& self.f.len() + self.dropped_faces <= MAX_FACES
        &&& self.records@.len() == self.f.len() + self.dropped_faces
        &&& forall|i: int| 0 <= i < self.vp.len() ==> in_lattice(#[trigger] self.vp[i])
        &&& forall|i: int|
            0 <= i < self.vn_acc.len() ==> fits(#[trigger] self.vn_acc[i], 0x6_0000 * self.f.len())
        &&& forall|i: int| 0 <= i < self.f.len() ==> (#[trigger] self.f[i]).wf()
        &&& forall|i: int| 0 <= i < self.f.len() ==> fits((#[trigger] self.f[i]).n, 2 * ONE)
        &&& forall|i: int| 0 <= i < self.f.len() ==> shadable(#[trigger] self.f[i])
        &&& forall|i: int| 0 <= i < self.vc.len() ==> fits(#[trigger] self.vc[i], ONE as int)
        &&& forall|i: int| 0 <= i < self.vn.len() ==> fits(#[trigger] self.vn[i], 2 * ONE)
        &&& forall|i: int|
            0 <= i < self.fo.len() ==> options_refer(
                #[trigger] self.fo[i],
                self.vp@.len(),
                self.vc@.len(),
                self.vn@.len(),
            )
    }

    /// Creates a builder without records.
    pub fn new() -> (b: SceneBuilder)
        ensures
            b.wf(),
            b.vp@.len() == 0,
            b.vc@.len() == 0,
            b.vn@.len() == 0,
            b.f@.len() == 0,
            b.dropped_faces == 0,
            b.use_color,
    {
        SceneBuilder {
            vp: Vec::new(),
            vn_acc: Vec::new(),
            vc: Vec::new(),
            vn: Vec::new(),
            f: Vec::new(),
            fo: Vec::new(),
            dropped_faces: 0,
            use_color: true,
            records: Ghost(Seq::empty()),
        }
    }

    /// Consumes the builder and makes the scene of its faces; the k-d tree
    /// over all of them is built here.
    pub fn into_scene(self) -> (sc: Scene)
        requires
            self.wf(),
        ensures
            sc.wf(),
            sc.shadable(),
            sc.f@ == self.f@,
    {
        let n = self.f.len();
        let mut face_names: Vec<usize> = Vec::new();
        let mut i: usize = 0;
        while i < n
            invariant
                i <= n,
                face_names@ == all_indices(i as nat),
            decreases n - i,
        {
            face_names.push(i);
            i = i + 1;
            assert(face_names@ == all_indices(i as nat));
        }
        proof {
            assert forall|k: int| 0 <= k < self.f.len() implies is_triangle(
                #[trigger] triangles_of(self.f@)[k],
            ) by {
                assert(self.f[k].wf());
            }
        }
        let kd = KD::build(face_names, &self);
        Scene { f: self.f, kd: kd }
    }

    fn accumulate(&mut self, p: usize, n: Normal)
        requires
            p < old(self).vn_acc.len(),
            fits(n, 2 * ONE),
            fits(old(self).vn_acc[p as int], 0x4000_0000_0000),
        ensures
            final(self).vn_acc@ == accumulated(old(self).vn_acc@, p, n),
            final(self).vp == old(self).vp,
            final(self).vc == old(self).vc,
            final(self).vn == old(self).vn,
            final(self).f == old(self).f,
            final(self).fo == old(self).fo,
            final(self).dropped_faces == old(self).dropped_faces,
            final(self).use_color == old(self).use_color,
            final(self).records == old(self).records,
    {
        let a = self.vn_acc[p];
        self.vn_acc.set(p, Vec4(a.0 + n.0, a.1 + n.1, a.2 + n.2, a.3 + n.3));
    }
}

impl Decoder for SceneBuilder {
    open spec fn valid(&self) -> bool {
        forall|i: int| 0 <= i < self.f.len() ==> (#[trigger] self.f[i]).wf()
    }

    open spec fn triangles(&self) -> Seq<Seq<Vec4>> {
        triangles_of(self.f@)
    }

    fn vertices(&self, i: usize) -> (r: &[Vec4]) {
        proof {
            assert(self.f[i as int].wf());
        }
        self.f[i].vp.as_slice()
    }
}

impl Importer for SceneBuilder {
    open spec fn inv(&self) -> bool {
        self.wf()
    }

    open spec fn n_vertices(&self) -> nat {
        self.vp@.len()
    }

    open spec fn n_texcoords(&self) -> nat {
        self.vc@.len()
    }

    open spec fn n_normals(&self) -> nat {
        self.vn@.len()
    }

    open spec fn faces(&self) -> Seq<Seq<FaceVertex>> {
        self.records@
    }

    /// Scales the accumulated normals to unit length and gives every vertex
    /// of every face its normal and its colour.
    fn finalize(&mut self)
        ensures
            final(self).vp == old(self).vp,
            final(self).vc == old(self).vc,
            final(self).vn == old(self).vn,
            final(self).fo == old(self).fo,
            final(self).dropped_faces == old(self).dropped_faces,
            final(self).use_color == old(self).use_color,
            final(self).vn_acc@.len() == old(self).vn_acc@.len(),
            forall|i: int|
                0 <= i < old(self).vn_acc@.len() ==> lanes(#[trigger] final(self).vn_acc[i])
                    == normalize_spec(old(self).vn_acc[i]),
            final(self).f@.len() == old(self).f@.len(),
            forall|i: int|
                0 <= i < old(self).f@.len() ==> same_geometry(
                    old(self).f[i],
                    #[trigger] final(self).f[i],
                ),
            forall|i: int, k: int|
                0 <= i < old(self).f@.len() && 0 <= k < 3 ==> (#[trigger] final(self).f[i].vn[k])
                    == final_normal(*old(self), final(self).vn_acc@, i, k),
            forall|i: int, k: int|
                0 <= i < old(self).f@.len() && 0 <= k < 3 ==> (#[trigger] final(self).f[i].vc[k])
                    == final_color(*old(self), i, k),
    {
        let nv = self.vn_acc.len();
        let mut j: usize = 0;
        while j < nv
            invariant
                j <= nv,
                nv == self.vn_acc.len(),
                old(self).wf(),
                self.vp == old(self).vp,
                self.vc == old(self).vc,
                self.vn == old(self).vn,
                self.f == old(self).f,
                self.fo == old(self).fo,
                self.dropped_faces == old(self).dropped_faces,
                self.use_color == old(self).use_color,
                self.records == old(self).records,
                self.vn_acc.len() == old(self).vn_acc.len(),
                forall|i: int|
                    0 <= i < j ==> lanes(#[trigger] self.vn_acc[i]) == normalize_spec(
                        old(self).vn_acc[i],
                    ) && fits(self.vn_acc[i], 2 * ONE),
                forall|i: int| j <= i < nv ==> (#[trigger] self.vn_acc[i]) == old(self).vn_acc[i],
            decreases nv - j,
        {
            let a = self.vn_acc[j];
            assert(fits(old(self).vn_acc[j as int], 0x6_0000 * old(self).f.len()));
            let u = v_normalize(a);
            self.vn_acc.set(j, u);
            j = j + 1;
        }
        let nf = self.f.len();
        let mut i: usize = 0;
        while i < nf
            invariant
                i <= nf,
                nf == self.f.len(),
                nf == old(self).f.len(),
                old(self).wf(),
                self.vp == old(self).vp,
                self.vc == old(self).vc,
                self.vn == old(self).vn,
                self.fo == old(self).fo,
                self.dropped_faces == old(self).dropped_faces,
                self.use_color == old(self).use_color,
                self.records == old(self).records,
                self.vn_acc.len() == old(self).vn_acc.len(),
                forall|q: int|
                    0 <= q < self.vn_acc.len() ==> lanes(#[trigger] self.vn_acc[q])
                        == normalize_spec(old(self).vn_acc[q]) && fits(self.vn_acc[q], 2 * ONE),
                forall|q: int| i <= q < nf ==> (#[trigger] self.f[q]) == old(self).f[q],
                forall|q: int| 0 <= q < i ==> shadable(#[trigger] self.f[q]),
                forall|q: int|
                    0 <= q < i ==> same_geometry(old(self).f[q], #[trigger] self.f[q]),
                forall|q: int, k: int|
                    0 <= q < i && 0 <= k < 3 ==> (#[trigger] self.f[q].vn[k]) == final_normal(
                        *old(self),
                        self.vn_acc@,
                        q,
                        k,
                    ),
                forall|q: int, k: int|
                    0 <= q < i && 0 <= k < 3 ==> (#[trigger] self.f[q].vc[k]) == final_color(
                        *old(self),
                        q,
                        k,
                    ),
            decreases nf - i,
        {
            assert(options_refer(old(self).fo[i as int], self.vp@.len(), self.vc@.len(), self.vn@.len()));
            assert(old(self).f[i as int].wf() && shadable(old(self).f[i as int]) && fits(
                old(self).f[i as int].n,
                2 * ONE,
            ));
            let n0 = self.pick_normal(i, 0);
            let n1 = self.pick_normal(i, 1);
            let n2 = self.pick_normal(i, 2);
            let c0 = self.pick_color(i, 0);
            let c1 = self.pick_color(i, 1);
            let c2 = self.pick_color(i, 2);
            let g = Face {
                vp: self.f[i].vp,
                vc: [c0, c1, c2],
                vn: [n0, n1, n2],
                n: self.f[i].n,
                plane: self.f[i].plane,
                Tinv: self.f[i].Tinv,
                det: self.f[i].det,
            };
            self.f.set(i, g);
            i = i + 1;
        }
    }

    fn add_vertex(&mut self, vp: Vertex)
        ensures
            final(self).vp@ == old(self).vp@.push(vp),
            final(self).vn_acc@ == old(self).vn_acc@.push(Vec4(0, 0, 0, 0)),
            final(self).f == old(self).f,
    {
        self.vp.push(vp);
        self.vn_acc.push(Vec4(0, 0, 0, 0));
        proof {
            assert(0x6_0000 * self.f.len() >= 0) by (nonlinear_arith);
        }
    }

    fn add_texcoord(&mut self, vt: crate::load::obj::TexCoord)
        ensures
            final(self).vc@ == old(self).vc@.push(Vec4(vt.0, vt.1, vt.2, 0)),
            final(self).f == old(self).f,
    {
        self.vc.push(Vec4(vt.0, vt.1, vt.2, 0));
    }

    fn add_normal(&mut self, vn: crate::load::obj::Normal)
        ensures
            final(self).vn@.len() == old(self).vn@.len() + 1,
            lanes(final(self).vn@.last()) == normalize_spec(Vec4(vn.0, vn.1, vn.2, 0)),
            final(self).f == old(self).f,
    {
        self.vn.push(v_normalize(Vec4(vn.0, vn.1, vn.2, 0)));
    }

    /// Creates the face on the three positions that the record names and
    /// adds its normal to the accumulated normal of each of them; a face
    /// without area is dropped and counted.
    fn add_face(&mut self, fin: [FaceVertex; 3])
        ensures
            final(self).vp == old(self).vp,
            final(self).vc == old(self).vc,
            final(self).vn == old(self).vn,
            collinear(record_positions(*old(self), fin)) ==> {
                &&& final(self).f == old(self).f
                &&& final(self).dropped_faces == old(self).dropped_faces + 1
            },
            !collinear(record_positions(*old(self), fin)) ==> {
                &&& final(self).dropped_faces == old(self).dropped_faces
                &&& final(self).f@.len() == old(self).f@.len() + 1
                &&& final(self).f@.drop_last() == old(self).f@
                &&& created(final(self).f@.last(), record_positions(*old(self), fin))
                &&& final(self).fo@.drop_last() == old(self).fo@
                &&& record_options(final(self).fo@.last(), fin)
                &&& final(self).vn_acc@ == accumulated(
                    accumulated(
                        accumulated(old(self).vn_acc@, fin[0].p, final(self).f@.last().n),
                        fin[1].p,
                        final(self).f@.last().n,
                    ),
                    fin[2].p,
                    final(self).f@.last().n,
                )
            },
            collinear(record_positions(*old(self), fin)) ==> final(self).vn_acc == old(self).vn_acc
                && final(self).fo == old(self).fo,
    {
        let tri = [self.vp[fin[0].p], self.vp[fin[1].p], self.vp[fin[2].p]];
        assert(tri@ == record_positions(*old(self), fin));
        self.records = Ghost(self.records@.push(fin@));
        match Face::new(tri) {
            Some(fout) => {
                let n = fout.n;
                proof {
                    assert(0x6_0000 * (self.f.len() + 1) == 0x6_0000 * self.f.len() + 0x6_0000)
                        by (nonlinear_arith);
                    assert(0x6_0000 * self.f.len() <= 0x6_0000 * 0x800_0000) by (nonlinear_arith)
                        requires
                            self.f.len() <= 0x800_0000,
                    ;
                }
                let ghost acc0 = self.vn_acc@;
                self.accumulate(fin[0].p, n);
                self.accumulate(fin[1].p, n);
                self.accumulate(fin[2].p, n);
                proof {
                    assert forall|i: int| 0 <= i < self.vn_acc.len() implies fits(
                        #[trigger] self.vn_acc[i],
                        0x6_0000 * self.f.len() + 0x6_0000,
                    ) by {
                        assert(fits(acc0[i], 0x6_0000 * self.f.len()));
                    }
                }
                self.f.push(fout);
                self.fo.push(
                    FaceOptions {
                        smooth: true,
                        use_normal: [
                            option_or(fin[0].n, fin[0].p),
                            option_or(fin[1].n, fin[1].p),
                            option_or(fin[2].n, fin[2].p),
                        ],
                        use_color: [fin[0].t, fin[1].t, fin[2].t],
                    },
                );
            },
            None => {
                self.dropped_faces = self.dropped_faces + 1;
            },
        }
    }
}

/// The positions that the three vertices of a face record name.
pub open spec fn record_positions(b: SceneBuilder, fin: [FaceVertex; 3]) -> Seq<Vec4> {
    seq![b.vp[fin[0].p as int], b.vp[fin[1].p as int], b.vp[fin[2].p as int]]
}

fn option_or(n: Option<usize>, p: usize) -> (r: Result<usize, usize>)
    ensures
        r == (match n {
            Some(i) => Ok::<usize, usize>(i),
            None => Err::<usize, usize>(p),
        }),
{
    match n {
        Some(i) => Ok(i),
        None => Err(p),
    }
}

impl SceneBuilder {
    fn pick_normal(&self, i: usize, k: usize) -> (r: Vec4)
        requires
            i < self.f.len(),
            i < self.fo.len(),
            k < 3,
            options_refer(self.fo[i as int], self.vn_acc@.len(), self.vc@.len(), self.vn@.len()),
            fits(self.f[i as int].n, 2 * ONE),
            forall|q: int| 0 <= q < self.vn.len() ==> fits(#[trigger] self.vn[q], 2 * ONE),
            forall|q: int| 0 <= q < self.vn_acc.len() ==> fits(#[trigger] self.vn_acc[q], 2 * ONE),
        ensures
            r == final_normal(*self, self.vn_acc@, i as int, k as int),
            fits(r, 2 * ONE),
    {
        match self.fo[i].use_normal[k] {
            Ok(ni) => self.vn[ni],
            Err(vi) => if self.fo[i].smooth {
                self.vn_acc[vi]
            } else {
                self.f[i].n
            },
        }
    }

    fn pick_color(&self, i: usize, k: usize) -> (r: Vec4)
        requires
            i < self.f.len(),
            i < self.fo.len(),
            k < 3,
            options_refer(self.fo[i as int], self.vn_acc@.len(), self.vc@.len(), self.vn@.len()),
            shadable(self.f[i as int]),
            forall|q: int| 0 <= q < self.vc.len() ==> fits(#[trigger] self.vc[q], ONE as int),
        ensures
            r == final_color(*self, i as int, k as int),
            fits(r, ONE as int),
    {
        if self.use_color {
            match self.fo[i].use_color[k] {
                Some(ci) => self.vc[ci],
                None => Vec4(ONE, ONE, ONE, 0),
            }
        } else {
            self.f[i].vc[k]
        }
    }
}

} // verus!
