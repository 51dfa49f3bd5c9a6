//! A k-d tree over the triangles of a scene.

use vstd::prelude::*;
use crate::geom::fast::{div_floor, in_lattice, mul_wide, Vec4};
use crate::geom::scene::Face;
use crate::render::inside::{lemma_hit_between, lemma_hit_bounds, ray_at};
use crate::render::trace::{
    collision_spec, hit_dist, hit_face, hits, ratio_le, Collision, Ratio, Ray,
};

verus! {

/// A splitting plane: its axis and its coordinate on that axis.
#[derive(Copy, Clone, Debug, PartialEq, Eq, Structural)]
pub enum Partition {
    X(i64),
    Y(i64),
    Z(i64),
}

/// Gives a tree builder the vertices of the faces that it indexes.
pub trait Decoder {
    /// The decoder is in a state in which it gives vertices.
    spec fn valid(&self) -> bool;

    /// The vertex triples of all faces, by face index.
    spec fn triangles(&self) -> Seq<Seq<Vec4>>;

    /// The three vertices of face `i`.
    fn vertices(&self, i: usize) -> (r: &[Vec4])
        requires
            self.valid(),
            i < self.triangles().len(),
        ensures
            r@ == self.triangles()[i as int],
            is_triangle(r@),
    ;
}

/// A k-d tree: a leaf holds face indices, an inner node a splitting plane
/// with the subtree of the faces below it and that of the faces not below it.
pub enum KD {
    Inner(Partition, Box<KD>, Box<KD>),
    Leaf(Vec<usize>),
}

/// Three lattice points.
pub open spec fn is_triangle(t: Seq<Vec4>) -> bool {
    &&& t.len() == 3
    &&& in_lattice(t[0])
    &&& in_lattice(t[1])
    &&& in_lattice(t[2])
}

/// Every index of `faces` names one of `tris`, and each of `tris` is a triangle.
pub open spec fn indexes(tris: Seq<Seq<Vec4>>, faces: Seq<usize>) -> bool {
    &&& forall|k: int| 0 <= k < faces.len() ==> (#[trigger] faces[k]) < tris.len()
    &&& forall|i: int| 0 <= i < tris.len() ==> is_triangle(#[trigger] tris[i])
}

/// The splitting coordinate of `p`.
pub open spec fn value_of(p: Partition) -> int {
    match p {
        Partition::X(x) => x as int,
        Partition::Y(y) => y as int,
        Partition::Z(z) => z as int,
    }
}

/// The coordinate of `v` on the axis of `p`.
pub open spec fn coord(p: Partition, v: Vec4) -> int {
    match p {
        Partition::X(_) => v.0 as int,
        Partition::Y(_) => v.1 as int,
        Partition::Z(_) => v.2 as int,
    }
}

/// The next axis in the cycle X, Y, Z, with coordinate zero.
pub open spec fn next_spec(p: Partition) -> Partition {
    match p {
        Partition::X(_) => Partition::Y(0),
        Partition::Y(_) => Partition::Z(0),
        Partition::Z(_) => Partition::X(0),
    }
}

/// The plane on the axis of `p` at coordinate `v`.
pub open spec fn set_spec(p: Partition, v: i64) -> Partition {
    match p {
        Partition::X(_) => Partition::X(v),
        Partition::Y(_) => Partition::Y(v),
        Partition::Z(_) => Partition::Z(v),
    }
}

/// `v` lies strictly below the plane.
pub open spec fn below(p: Partition, v: Vec4) -> bool {
    coord(p, v) < value_of(p)
}

/// The triangle has a vertex strictly below the plane.
pub open spec fn on_small_side(p: Partition, t: Seq<Vec4>) -> bool {
    below(p, t[0]) || below(p, t[1]) || below(p, t[2])
}

/// The triangle has a vertex that is not strictly below the plane.
pub open spec fn on_large_side(p: Partition, t: Seq<Vec4>) -> bool {
    !below(p, t[0]) || !below(p, t[1]) || !below(p, t[2])
}

/// The sum, over the listed faces, of the coordinates of their three vertices on the axis of `ax`.
pub open spec fn coord_sum(tris: Seq<Seq<Vec4>>, faces: Seq<usize>, ax: Partition) -> int
    decreases faces.len(),
{
    if faces.len() == 0 {
        0
    } else {
        let t = tris[faces.last() as int];
        coord_sum(tris, faces.drop_last(), ax) + coord(ax, t[0]) + coord(ax, t[1]) + coord(
            ax,
            t[2],
        )
    }
}

/// The splitting plane for the listed faces on the axis of `ax`: at the mean
/// of the coordinates of all their vertices, rounded down.
pub open spec fn split_spec(tris: Seq<Seq<Vec4>>, faces: Seq<usize>, ax: Partition) -> Partition {
    set_spec(ax, (coord_sum(tris, faces, ax) / (3 * faces.len() as int)) as i64)
}

/// The listed faces that have a vertex strictly below `p`, in order.
pub open spec fn less_spec(tris: Seq<Seq<Vec4>>, faces: Seq<usize>, p: Partition) -> Seq<usize> {
    faces.filter(|i: usize| on_small_side(p, tris[i as int]))
}

/// The listed faces that have a vertex not strictly below `p`, in order.
pub open spec fn more_spec(tris: Seq<Seq<Vec4>>, faces: Seq<usize>, p: Partition) -> Seq<usize> {
    faces.filter(|i: usize| on_large_side(p, tris[i as int]))
}

/// The plane `p` separates the listed faces: neither side receives all of them.
pub open spec fn separates(tris: Seq<Seq<Vec4>>, faces: Seq<usize>, p: Partition) -> bool {
    &&& less_spec(tris, faces, p).len() != faces.len()
    &&& more_spec(tris, faces, p).len() != faces.len()
}

impl Partition {
    /// The plane on the next axis of the cycle X, Y, Z, at coordinate zero.
    pub fn next(self) -> (r: Partition)
        ensures
            r == next_spec(self),
    {
        match self {
            Partition::X(_) => Partition::Y(0),
            Partition::Y(_) => Partition::Z(0),
            Partition::Z(_) => Partition::X(0),
        }
    }

    /// The plane on the axis of this plane at coordinate `v`.
    pub fn set(&self, v: i64) -> (r: Partition)
        ensures
            r == set_spec(*self, v),
    {
        match *self {
            Partition::X(_) => Partition::X(v),
            Partition::Y(_) => Partition::Y(v),
            Partition::Z(_) => Partition::Z(v),
        }
    }

    /// The coordinate of `v` on the axis of this plane.
    pub fn project(&self, v: Vec4) -> (r: i64)
        ensures
            r == coord(*self, v),
    {
        match *self {
            Partition::X(_) => v.0,
            Partition::Y(_) => v.1,
            Partition::Z(_) => v.2,
        }
    }

    /// Whether `v` lies strictly below this plane.
    pub fn on_small_side(&self, v: Vec4) -> (r: bool)
        ensures
            r == below(*self, v),
    {
        match *self {
            Partition::X(x) => v.0 < x,
            Partition::Y(y) => v.1 < y,
            Partition::Z(z) => v.2 < z,
        }
    }
}

/// The distance along the ray from `p0` in direction `v` at which it crosses
/// the plane `p`, with a non-negative denominator: zero where the ray runs
/// parallel to the plane.
pub open spec fn crossing(p: Partition, p0: Vec4, v: Vec4) -> Ratio {
    if coord(p, v) < 0 {
        Ratio { num: (coord(p, p0) - value_of(p)) as i128, den: (-coord(p, v)) as i128 }
    } else {
        Ratio { num: (value_of(p) - coord(p, p0)) as i128, den: coord(p, v) as i128 }
    }
}

/// The vertex triples of a list of faces.
pub open spec fn triangles_of(faces: Seq<Face>) -> Seq<Seq<Vec4>> {
    Seq::new(faces.len(), |i: int| faces[i].vp@)
}

/// The indices `0..n`, in order.
pub open spec fn all_indices(n: nat) -> Seq<usize> {
    Seq::new(n, |i: int| i as usize)
}

/// A segment start: a distance along a ray at which it crosses a splitting
/// plane, or zero.
pub open spec fn is_start(t: Ratio) -> bool {
    &&& 0 <= t.num <= 0x8_0000
    &&& 0 < t.den <= 0x4_0000
}

/// What holds of the stamps and the running collision throughout the queries
/// of one ray: a face is stamped with the identifier of the ray once it has
/// been tested, and the collision is the nearest among the tested faces.
pub open spec fn sound(r: Ray, faces: Seq<Face>, ids: Seq<u64>, coll: Collision) -> bool {
    &&& ids.len() == faces.len()
    &&& coll.dist.is_dist()
    &&& forall|i: int| 0 <= i < ids.len() ==> (#[trigger] ids[i]) <= r.id
    &&& coll.dist.den != 0 ==> {
        &&& coll.face < faces.len()
        &&& ids[coll.face as int] == r.id
        &&& hits(r, faces[coll.face as int])
        &&& coll == collision_spec(r, faces[coll.face as int], coll.face)
    }
    &&& forall|i: int|
        0 <= i < ids.len() && (#[trigger] ids[i]) == r.id && hits(r, faces[i]) ==> ratio_le(
            coll.dist,
            hit_dist(r, faces[i]),
        )
}

/// Every stamp is as it was or has become `id`.
pub open spec fn stamped(before: Seq<u64>, after: Seq<u64>, id: u64) -> bool {
    &&& before.len() == after.len()
    &&& forall|i: int|
        0 <= i < before.len() ==> (#[trigger] after[i]) == before[i] || after[i] == id
}

/// Every listed face that the ray meets at `start` or beyond has been tested.
pub open spec fn covered(r: Ray, faces: Seq<Face>, ids: Seq<u64>, list: Seq<usize>, start: Ratio)
    -> bool {
    forall|k: int|
        0 <= k < list.len() && hits(r, faces[(#[trigger] list[k]) as int]) && ratio_le(
            start,
            hit_dist(r, faces[list[k] as int]),
        ) ==> ids[list[k] as int] == r.id
}

impl Partition {
    /// The distance along the ray from `p0` in direction `v` at which it crosses this plane.
    pub fn hit(&self, p0: Vec4, v: Vec4) -> (r: Ratio)
        requires
            in_lattice(p0),
            in_lattice(v),
            -0x4_0000 <= value_of(*self) <= 0x4_0000,
        ensures
            r == crossing(*self, p0, v),
    {
        let s: i128 = match *self {
            Partition::X(x) => x as i128,
            Partition::Y(y) => y as i128,
            Partition::Z(z) => z as i128,
        };
        let pk: i128 = self.project(p0) as i128;
        let vk: i128 = self.project(v) as i128;
        if vk < 0 {
            Ratio { num: pk - s, den: -vk }
        } else {
            Ratio { num: s - pk, den: vk }
        }
    }
}

impl KD {
    /// This tree is the one that `build` makes of the listed faces, starting
    /// on the axis of `ax`: a leaf of all of them where they are at most four
    /// or their splitting plane fails to separate them, and otherwise that
    /// plane with the trees of its two sides, each on the next axis.
    pub open spec fn built(self, tris: Seq<Seq<Vec4>>, faces: Seq<usize>, ax: Partition) -> bool
        decreases self,
    {
        let p = split_spec(tris, faces, ax);
        match self {
            KD::Leaf(v) => v@ == faces && (faces.len() <= 4 || !separates(tris, faces, p)),
            KD::Inner(q, l, r) => {
                &&& faces.len() > 4
                &&& q == p
                &&& separates(tris, faces, p)
                &&& l.built(tris, less_spec(tris, faces, p), next_spec(ax))
                &&& r.built(tris, more_spec(tris, faces, p), next_spec(ax))
            },
        }
    }

    /// No leaf holds more than four faces, unless it holds the faces that
    /// their splitting plane, on the axis of the leaf's depth, fails to separate.
    pub open spec fn leaves_within_cutoff(self, tris: Seq<Seq<Vec4>>, ax: Partition) -> bool
        decreases self,
    {
        match self {
            KD::Leaf(v) => v@.len() <= 4 || !separates(tris, v@, split_spec(tris, v@, ax)),
            KD::Inner(_, l, r) => {
                &&& l.leaves_within_cutoff(tris, next_spec(ax))
                &&& r.leaves_within_cutoff(tris, next_spec(ax))
            },
        }
    }

    fn build_real<D: Decoder>(faces: Vec<usize>, d: &D, ax: Partition) -> (r: KD)
        requires
            d.valid(),
            indexes(d.triangles(), faces@),
        ensures
            r.built(d.triangles(), faces@, ax),
        decreases faces.len(),
    {
        let ghost tris = d.triangles();
        if faces.len() <= 4 {
            return KD::Leaf(faces);
        }
        let mut sum: i128 = 0;
        let mut k: usize = 0;
        while k < faces.len()
            invariant
                0 <= k <= faces.len(),
                d.valid(),
                tris == d.triangles(),
                indexes(tris, faces@),
                sum == coord_sum(tris, faces@.take(k as int), ax),
                -786432 * k <= sum <= 786432 * k,
            decreases faces.len() - k,
        {
            let vp = d.vertices(faces[k]);
            proof {
                assert(faces@.take(k + 1).drop_last() == faces@.take(k as int));
                assert(faces@.take(k + 1).last() == faces@[k as int]);
            }
            sum = sum + ax.project(vp[0]) as i128 + ax.project(vp[1]) as i128 + ax.project(
                vp[2],
            ) as i128;
            k = k + 1;
        }
        assert(faces@.take(faces.len() as int) == faces@);
        let count: i128 = 3 * (faces.len() as i128);
        let mean: i128 = div_floor(sum, count);
        proof {
            assert(-262144 <= sum / count <= 262144) by (nonlinear_arith)
                requires
                    count > 0,
                    -262144 * count <= sum <= 262144 * count,
            ;
        }
        let p = ax.set(mean as i64);
        assert(p == split_spec(tris, faces@, ax));

        let mut less: Vec<usize> = Vec::new();
        let mut more: Vec<usize> = Vec::new();
        let mut j: usize = 0;
        while j < faces.len()
            invariant
                0 <= j <= faces.len(),
                d.valid(),
                tris == d.triangles(),
                indexes(tris, faces@),
                less@ == less_spec(tris, faces@.take(j as int), p),
                more@ == more_spec(tris, faces@.take(j as int), p),
            decreases faces.len() - j,
        {
            let i = faces[j];
            let vp = d.vertices(i);
            let s0 = p.on_small_side(vp[0]);
            let s1 = p.on_small_side(vp[1]);
            let s2 = p.on_small_side(vp[2]);
            proof {
                reveal(Seq::filter);
                assert(faces@.take(j + 1).drop_last() == faces@.take(j as int));
                assert(faces@.take(j + 1).last() == i);
            }
            if s0 || s1 || s2 {
                less.push(i);
            }
            if !s0 || !s1 || !s2 {
                more.push(i);
            }
            j = j + 1;
        }
        assert(faces@.take(faces.len() as int) == faces@);

        if less.len() == faces.len() || more.len() == faces.len() {
            KD::Leaf(faces)
        } else {
            proof {
                lemma_sides(tris, faces@, p);
            }
            KD::Inner(
                p,
                Box::new(KD::build_real(less, d, ax.next())),
                Box::new(KD::build_real(more, d, ax.next())),
            )
        }
    }

    /// Builds the tree of the listed faces, splitting first on the X axis.
    pub fn build<D: Decoder>(faces: Vec<usize>, d: &D) -> (r: KD)
        requires
            d.valid(),
            indexes(d.triangles(), faces@),
        ensures
            r.built(d.triangles(), faces@, Partition::X(0)),
    {
        KD::build_real(faces, d, Partition::X(0))
    }

    fn query_real(
        &self,
        r: &Ray,
        start: Ratio,
        faces: &Vec<Face>,
        ids: &mut Vec<u64>,
        coll: &mut Collision,
        any: bool,
        Ghost(list): Ghost<Seq<usize>>,
        Ghost(ax): Ghost<Partition>,
    ) -> (found: bool)
        requires
            r.wf(),
            is_start(start),
            forall|i: int| 0 <= i < faces.len() ==> (#[trigger] faces[i]).wf(),
            indexes(triangles_of(faces@), list),
            self.built(triangles_of(faces@), list, ax),
            sound(*r, faces@, old(ids)@, *old(coll)),
        ensures
            sound(*r, faces@, final(ids)@, *final(coll)),
            stamped(old(ids)@, final(ids)@, r.id),
            found ==> any && final(coll).dist.den != 0,
            !found ==> covered(*r, faces@, final(ids)@, list, start),
            any && !found ==> *final(coll) == *old(coll),
        decreases self,
    {
        let ghost tris = triangles_of(faces@);
        match self {
            KD::Leaf(v) => {
                let mut j: usize = 0;
                while j < v.len()
                    invariant
                        0 <= j <= v.len(),
                        v@ == list,
                        r.wf(),
                        tris == triangles_of(faces@),
                        indexes(tris, list),
                        forall|i: int| 0 <= i < faces.len() ==> (#[trigger] faces[i]).wf(),
                        sound(*r, faces@, ids@, *coll),
                        stamped(old(ids)@, ids@, r.id),
                        any ==> *coll == *old(coll),
                        forall|k: int| 0 <= k < j ==> ids@[(#[trigger] list[k]) as int] == r.id,
                    decreases v.len() - j,
                {
                    let idx = v[j];
                    assert(list[j as int] < tris.len());
                    if ids[idx] < r.id {
                        let ghost before = *coll;
                        let ghost ids0 = ids@;
                        ids.set(idx, r.id);
                        let b = hit_face(r, &faces[idx], idx, coll);
                        proof {
                            lemma_tested(*r, faces@, ids0, idx, before, *coll, b);
                        }
                        if any && b {
                            return true;
                        }
                    }
                    j = j + 1;
                }
                false
            },
            KD::Inner(p, left, right) => {
                proof {
                    lemma_sides(tris, list, *p);
                    lemma_split_bounded(tris, list, ax);
                }
                let ghost less = less_spec(tris, list, *p);
                let ghost more = more_spec(tris, list, *p);
                let s: i128 = match *p {
                    Partition::X(x) => x as i128,
                    Partition::Y(y) => y as i128,
                    Partition::Z(z) => z as i128,
                };
                let pk: i128 = p.project(r.p0) as i128;
                let vk: i128 = p.project(r.v) as i128;
                let l = Ghost(0x4_0000int);
                let e = Ghost(0x8_0000int);
                let xs: i128 = mul_wide(pk, start.den, l, l) + mul_wide(vk, start.num, l, e);
                let small = xs < mul_wide(s, start.den, l, l);
                proof {
                    lemma_far_start(pk as int, vk as int, s as int, start.num as int, start.den as int);
                }
                if small {
                    if left.query_real(r, start, faces, ids, coll, any, Ghost(less), Ghost(next_spec(ax))) {
                        return true;
                    }
                    let ghost ids1 = ids@;
                    let found = if vk > 0 {
                        let far = p.hit(r.p0, r.v);
                        right.query_real(r, far, faces, ids, coll, any, Ghost(more), Ghost(next_spec(ax)))
                    } else {
                        false
                    };
                    proof {
                        if !found {
                            lemma_covered_inner(*r, faces@, ids1, ids@, list, *p, start);
                        }
                    }
                    found
                } else {
                    if right.query_real(r, start, faces, ids, coll, any, Ghost(more), Ghost(next_spec(ax))) {
                        return true;
                    }
                    let ghost ids1 = ids@;
                    let found = if vk < 0 {
                        let far = p.hit(r.p0, r.v);
                        left.query_real(r, far, faces, ids, coll, any, Ghost(less), Ghost(next_spec(ax)))
                    } else {
                        false
                    };
                    proof {
                        if !found {
                            lemma_covered_inner(*r, faces@, ids1, ids@, list, *p, start);
                        }
                    }
                    found
                }
            },
        }
    }

    /// Walks the tree along the ray, nearer side first, and tests every face
    /// that the ray can meet and that does not yet bear the stamp of the ray.
    /// With `any` the walk ends at the first face that the ray meets, and the
    /// result says whether there was one; without it the walk goes on, the
    /// result is `false`, and `coll` ends as the nearest collision.
    pub fn query(
        &self,
        r: &Ray,
        faces: &Vec<Face>,
        ids: &mut Vec<u64>,
        coll: &mut Collision,
        any: bool,
    ) -> (found: bool)
        requires
            r.wf(),
            forall|i: int| 0 <= i < faces.len() ==> (#[trigger] faces[i]).wf(),
            self.built(triangles_of(faces@), all_indices(faces@.len()), Partition::X(0)),
            sound(*r, faces@, old(ids)@, *old(coll)),
        ensures
            sound(*r, faces@, final(ids)@, *final(coll)),
            stamped(old(ids)@, final(ids)@, r.id),
            found ==> any && final(coll).dist.den != 0,
            !found ==> forall|i: int|
                0 <= i < faces.len() && hits(*r, #[trigger] faces[i]) ==> final(ids)@[i] == r.id,
            any && !found ==> *final(coll) == *old(coll),
    {
        let ghost list = all_indices(faces@.len());
        proof {
            assert forall|i: int| 0 <= i < faces.len() implies is_triangle(
                #[trigger] triangles_of(faces@)[i],
            ) by {
                assert(faces[i].wf());
            }
        }
        let found = self.query_real(
            r,
            Ratio { num: 0, den: 1 },
            faces,
            ids,
            coll,
            any,
            Ghost(list),
            Ghost(Partition::X(0)),
        );
        proof {
            if !found {
                assert forall|i: int| 0 <= i < faces.len() && hits(*r, #[trigger] faces[i]) implies ids@[i]
                    == r.id by {
                    lemma_hit_bounds(*r, faces[i]);
                    assert(list[i] == i);
                    assert(ratio_le(Ratio { num: 0, den: 1 }, hit_dist(*r, faces[list[i] as int])));
                }
            }
        }
        found
    }
}

/// Both sides of a plane index the faces that the whole list indexes, and neither is longer.
pub proof fn lemma_sides(tris: Seq<Seq<Vec4>>, faces: Seq<usize>, p: Partition)
    requires
        indexes(tris, faces),
    ensures
        indexes(tris, less_spec(tris, faces, p)),
        indexes(tris, more_spec(tris, faces, p)),
        less_spec(tris, faces, p).len() <= faces.len(),
        more_spec(tris, faces, p).len() <= faces.len(),
{
    let fl = |i: usize| on_small_side(p, tris[i as int]);
    let fm = |i: usize| on_large_side(p, tris[i as int]);
    faces.lemma_filter_len(fl);
    faces.lemma_filter_len(fm);
    let l = less_spec(tris, faces, p);
    let m = more_spec(tris, faces, p);
    assert forall|k: int| 0 <= k < l.len() implies (#[trigger] l[k]) < tris.len() by {
        assert(l.contains(l[k]));
        faces.lemma_filter_contains_rev(fl, l[k]);
    }
    assert forall|k: int| 0 <= k < m.len() implies (#[trigger] m[k]) < tris.len() by {
        assert(m.contains(m[k]));
        faces.lemma_filter_contains_rev(fm, m[k]);
    }
}

/// The order of distances is transitive.
pub proof fn lemma_ratio_trans(a: Ratio, b: Ratio, c: Ratio)
    requires
        a.den > 0,
        b.den >= 0,
        c.den > 0,
        b.num >= 0,
        b.den == 0 ==> b.num > 0,
        ratio_le(a, b),
        ratio_le(b, c),
    ensures
        ratio_le(a, c),
{
    let (an, ad) = (a.num as int, a.den as int);
    let (bn, bd) = (b.num as int, b.den as int);
    let (cn, cd) = (c.num as int, c.den as int);
    if bd == 0 {
        assert(bn * cd > 0) by (nonlinear_arith)
            requires
                bn > 0,
                cd > 0,
        ;
        assert(cn * bd == 0) by (nonlinear_arith)
            requires
                bd == 0,
        ;
    } else {
        assert((an * cd) * bd <= (cn * ad) * bd) by (nonlinear_arith)
            requires
                an * bd <= bn * ad,
                bn * cd <= cn * bd,
                ad > 0,
                cd > 0,
        ;
        assert(an * cd <= cn * ad) by (nonlinear_arith)
            requires
                (an * cd) * bd <= (cn * ad) * bd,
                bd > 0,
        ;
    }
}

/// Testing one more face keeps the stamps and the running collision sound.
pub proof fn lemma_tested(
    r: Ray,
    faces: Seq<Face>,
    ids: Seq<u64>,
    idx: usize,
    before: Collision,
    after: Collision,
    b: bool,
)
    requires
        r.wf(),
        idx < faces.len(),
        forall|i: int| 0 <= i < faces.len() ==> (#[trigger] faces[i]).wf(),
        sound(r, faces, ids, before),
        ids[idx as int] < r.id,
        b == (hits(r, faces[idx as int]) && ratio_le(hit_dist(r, faces[idx as int]), before.dist)),
        b ==> after == collision_spec(r, faces[idx as int], idx),
        !b ==> after == before,
        after.dist.is_dist(),
    ensures
        sound(r, faces, ids.update(idx as int, r.id), after),
        b ==> after.dist.den != 0,
{
    let ids2 = ids.update(idx as int, r.id);
    let d = hit_dist(r, faces[idx as int]);
    lemma_hit_bounds(r, faces[idx as int]);
    assert forall|i: int| 0 <= i < ids2.len() && (#[trigger] ids2[i]) == r.id && hits(
        r,
        faces[i],
    ) implies ratio_le(after.dist, hit_dist(r, faces[i])) by {
        lemma_hit_bounds(r, faces[i]);
        if i == idx {
        } else {
            assert(ids[i] == r.id);
            if b {
                lemma_ratio_trans(d, before.dist, hit_dist(r, faces[i]));
            }
        }
    }
}

/// The sum of the coordinates of the vertices of the listed faces is bounded by their number.
pub proof fn lemma_coord_sum_bound(tris: Seq<Seq<Vec4>>, faces: Seq<usize>, ax: Partition)
    requires
        indexes(tris, faces),
    ensures
        -786432 * faces.len() <= coord_sum(tris, faces, ax) <= 786432 * faces.len(),
    decreases faces.len(),
{
    if faces.len() > 0 {
        lemma_coord_sum_bound(tris, faces.drop_last(), ax);
        assert(is_triangle(tris[faces.last() as int]));
    }
}

/// The splitting plane of a list of faces lies on the axis asked for, within the lattice.
pub proof fn lemma_split_bounded(tris: Seq<Seq<Vec4>>, faces: Seq<usize>, ax: Partition)
    requires
        indexes(tris, faces),
        faces.len() > 0,
    ensures
        -0x4_0000 <= value_of(split_spec(tris, faces, ax)) <= 0x4_0000,
        forall|v: Vec4| coord(split_spec(tris, faces, ax), v) == coord(ax, v),
{
    lemma_coord_sum_bound(tris, faces, ax);
    let sum = coord_sum(tris, faces, ax);
    let count = 3 * faces.len() as int;
    assert(-262144 <= sum / count <= 262144) by (nonlinear_arith)
        requires
            count > 0,
            -262144 * count <= sum <= 262144 * count,
    ;
}

/// Where the ray crosses the plane beyond the start of its segment, the
/// crossing is a segment start.
pub proof fn lemma_far_start(pk: int, vk: int, s: int, sn: int, sd: int)
    requires
        sn >= 0,
        sd > 0,
    ensures
        pk * sd + vk * sn < s * sd && vk > 0 ==> s - pk > 0,
        pk * sd + vk * sn >= s * sd && vk < 0 ==> pk - s >= 0,
{
    if pk * sd + vk * sn < s * sd && vk > 0 {
        assert(s - pk > 0) by (nonlinear_arith)
            requires
                pk * sd + vk * sn < s * sd,
                vk > 0,
                sn >= 0,
                sd > 0,
        ;
    }
    if pk * sd + vk * sn >= s * sd && vk < 0 {
        assert(pk - s >= 0) by (nonlinear_arith)
            requires
                pk * sd + vk * sn >= s * sd,
                vk < 0,
                sn >= 0,
                sd > 0,
        ;
    }
}

/// A ray that starts its segment on one side of a plane and meets a face on
/// the other side moves towards the plane and crosses it no later than it
/// meets the face.
pub proof fn lemma_cross_over(pk: int, vk: int, s: int, sn: int, sd: int, tn: int, td: int)
    requires
        sn >= 0,
        sd > 0,
        tn >= 0,
        td > 0,
        sn * td <= tn * sd,
    ensures
        pk * sd + vk * sn < s * sd && pk * td + vk * tn >= s * td ==> vk > 0 && (s - pk) * td
            <= tn * vk,
        pk * sd + vk * sn >= s * sd && pk * td + vk * tn < s * td ==> vk < 0 && (pk - s) * td
            <= tn * (-vk),
{
    let xs = pk * sd + vk * sn;
    let xf = pk * td + vk * tn;
    let g = tn * sd - sn * td;
    assert(xf * sd - xs * td == vk * g) by (nonlinear_arith)
        requires
            xs == pk * sd + vk * sn,
            xf == pk * td + vk * tn,
            g == tn * sd - sn * td,
    ;
    assert((s - pk) * td == s * td - pk * td) by (nonlinear_arith);
    assert((pk - s) * td == pk * td - s * td) by (nonlinear_arith);
    assert(tn * (-vk) == -(vk * tn)) by (nonlinear_arith);
    assert(tn * vk == vk * tn) by (nonlinear_arith);
    if xs < s * sd && xf >= s * td {
        assert(vk * g > 0) by (nonlinear_arith)
            requires
                xf * sd - xs * td == vk * g,
                xs < s * sd,
                xf >= s * td,
                sd > 0,
                td > 0,
        ;
        assert(vk > 0) by (nonlinear_arith)
            requires
                vk * g > 0,
                g >= 0,
        ;
    }
    if xs >= s * sd && xf < s * td {
        assert(vk * g < 0) by (nonlinear_arith)
            requires
                xf * sd - xs * td == vk * g,
                xs >= s * sd,
                xf < s * td,
                sd > 0,
                td > 0,
        ;
        assert(vk < 0) by (nonlinear_arith)
            requires
                vk * g < 0,
                g >= 0,
        ;
    }
}

/// After the walk of an inner node every face of the node that the ray meets
/// at the start of its segment or beyond has been tested: the faces on the
/// near side by the first walk, and those on the far side by the second,
/// which is made whenever the ray moves towards the plane.
pub proof fn lemma_covered_inner(
    r: Ray,
    faces: Seq<Face>,
    ids1: Seq<u64>,
    ids2: Seq<u64>,
    list: Seq<usize>,
    p: Partition,
    start: Ratio,
)
    requires
        r.wf(),
        is_start(start),
        forall|i: int| 0 <= i < faces.len() ==> (#[trigger] faces[i]).wf(),
        indexes(triangles_of(faces), list),
        -0x4_0000 <= value_of(p) <= 0x4_0000,
        ids1.len() == faces.len(),
        stamped(ids1, ids2, r.id),
        ray_at(r, p, start) < value_of(p) * start.den ==> {
            &&& covered(r, faces, ids1, less_spec(triangles_of(faces), list, p), start)
            &&& coord(p, r.v) > 0 ==> covered(
                r,
                faces,
                ids2,
                more_spec(triangles_of(faces), list, p),
                crossing(p, r.p0, r.v),
            )
        },
        ray_at(r, p, start) >= value_of(p) * start.den ==> {
            &&& covered(r, faces, ids1, more_spec(triangles_of(faces), list, p), start)
            &&& coord(p, r.v) < 0 ==> covered(
                r,
                faces,
                ids2,
                less_spec(triangles_of(faces), list, p),
                crossing(p, r.p0, r.v),
            )
        },
    ensures
        covered(r, faces, ids2, list, start),
{
    let tris = triangles_of(faces);
    let less = less_spec(tris, list, p);
    let more = more_spec(tris, list, p);
    let fl = |i: usize| on_small_side(p, tris[i as int]);
    let fm = |i: usize| on_large_side(p, tris[i as int]);
    let s = value_of(p);
    let pk = coord(p, r.p0);
    let vk = coord(p, r.v);
    assert forall|k: int|
        0 <= k < list.len() && hits(r, faces[(#[trigger] list[k]) as int]) && ratio_le(
            start,
            hit_dist(r, faces[list[k] as int]),
        ) implies ids2[list[k] as int] == r.id by {
        let i = list[k];
        let f = faces[i as int];
        let d = hit_dist(r, f);
        assert(f.wf());
        assert(tris[i as int] == f.vp@);
        lemma_hit_bounds(r, f);
        lemma_hit_between(r, f, p);
        lemma_cross_over(pk, vk, s, start.num as int, start.den as int, d.num as int, d.den as int);
        let far = crossing(p, r.p0, r.v);
        if ray_at(r, p, d) < s * d.den {
            // the face has a vertex below the plane
            assert(fl(i));
            list.lemma_filter_contains(fl, k);
            let k2 = choose|k2: int| 0 <= k2 < less.len() && less[k2] == i;
            if ray_at(r, p, start) < s * start.den {
                assert(ids1[less[k2] as int] == r.id);
            } else {
                assert(ratio_le(far, d));
                assert(ids2[less[k2] as int] == r.id);
            }
        } else {
            assert(fm(i));
            list.lemma_filter_contains(fm, k);
            let k2 = choose|k2: int| 0 <= k2 < more.len() && more[k2] == i;
            if ray_at(r, p, start) >= s * start.den {
                assert(ids1[more[k2] as int] == r.id);
            } else {
                assert(ratio_le(far, d));
                assert(ids2[more[k2] as int] == r.id);
            }
        }
    }
}

/// In a built tree no leaf exceeds the cutoff of four faces, except a leaf
/// that was made because its splitting plane separated nothing.
pub proof fn lemma_leaf_cutoff(tree: KD, tris: Seq<Seq<Vec4>>, faces: Seq<usize>, ax: Partition)
    requires
        tree.built(tris, faces, ax),
    ensures
        tree.leaves_within_cutoff(tris, ax),
    decreases tree,
{
    match tree {
        KD::Leaf(v) => {},
        KD::Inner(p, l, r) => {
            lemma_leaf_cutoff(*l, tris, less_spec(tris, faces, p), next_spec(ax));
            lemma_leaf_cutoff(*r, tris, more_spec(tris, faces, p), next_spec(ax));
        },
    }
}

} // verus!
