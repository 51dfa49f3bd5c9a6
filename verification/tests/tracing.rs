use cray::geom::fast::{Vec4, ONE};
use cray::geom::kd::{Partition, KD};
use cray::geom::scene::{Face, Scene, SceneBuilder};
use cray::load::obj::{FaceVertex, Importer};
use cray::render::trace::{basis_from_b1, hit_face, Collision, Ratio, Ray, Tracer};

fn corner(p: usize) -> FaceVertex {
    FaceVertex { p: p, t: None, n: None }
}

fn add_triangle(b: &mut SceneBuilder, a: Vec4, c: Vec4, d: Vec4) {
    let base = b.vp.len();
    b.add_vertex(a);
    b.add_vertex(c);
    b.add_vertex(d);
    b.add_face([corner(base), corner(base + 1), corner(base + 2)]);
}

/// A field of small upward-facing triangles in the plane y = 0, one per lattice cell.
fn field(n: i64) -> Scene {
    let mut b = SceneBuilder::new();
    for i in 0..n {
        for j in 0..n {
            let (x, z) = (i * 10, j * 10);
            add_triangle(&mut b, Vec4(x + 8, 0, z, 0), Vec4(x, 0, z, 0), Vec4(x, 0, z + 8, 0));
        }
    }
    // a second storey over a part of the field
    for i in 0..n {
        let x = i * 10;
        add_triangle(&mut b, Vec4(x + 8, 30, 0, 0), Vec4(x, 30, 0, 0), Vec4(x, 30, 8, 0));
    }
    b.finalize();
    b.into_scene()
}

fn infinite() -> Collision {
    Collision {
        dist: Ratio { num: 1, den: 0 },
        face: 0,
        bary: [Ratio { num: 0, den: 1 }, Ratio { num: 0, den: 1 }],
    }
}

fn brute_force(r: &Ray, faces: &Vec<Face>) -> Option<Collision> {
    let mut coll = infinite();
    for (i, f) in faces.iter().enumerate() {
        hit_face(r, f, i, &mut coll);
    }
    if coll.dist.den != 0 {
        Some(coll)
    } else {
        None
    }
}

fn same_distance(a: Ratio, b: Ratio) -> bool {
    a.num * b.den == b.num * a.den
}

fn lane(v: Vec4, axis: usize) -> i64 {
    match axis {
        0 => v.0,
        1 => v.1,
        _ => v.2,
    }
}

/// Whether the plane at the mean of the vertices of the listed faces on the
/// axis leaves faces on both sides only.
fn separable(faces: &Vec<Face>, list: &Vec<usize>, axis: usize) -> bool {
    let mut sum: i64 = 0;
    for &i in list.iter() {
        for k in 0..3 {
            sum += lane(faces[i].vp[k], axis);
        }
    }
    let split = sum.div_euclid(3 * list.len() as i64);
    let less = list.iter().filter(|&&i| (0..3).any(|k| lane(faces[i].vp[k], axis) < split)).count();
    let more = list.iter().filter(|&&i| (0..3).any(|k| lane(faces[i].vp[k], axis) >= split)).count();
    less != list.len() && more != list.len()
}

/// Checks every leaf against the cutoff and returns the number of leaves.
fn check_leaves(kd: &KD, faces: &Vec<Face>, axis: usize) -> usize {
    match kd {
        KD::Leaf(v) => {
            assert!(v.len() <= 4 || !separable(faces, v, axis));
            1
        }
        KD::Inner(_, l, r) => {
            check_leaves(l, faces, (axis + 1) % 3) + check_leaves(r, faces, (axis + 1) % 3)
        }
    }
}

#[test]
fn ray_straight_down_hits_triangle() {
    let f = Face::new([Vec4(10, 0, -10, 0), Vec4(-10, 0, -10, 0), Vec4(0, 0, 10, 0)]).unwrap();
    assert_eq!(f.n, Vec4(0, ONE, 0, 0));
    let r = Ray { p0: Vec4(0, 100, 0, 0), v: Vec4(0, -ONE, 0, 0), id: 1 };
    let mut coll = infinite();
    assert!(hit_face(&r, &f, 3, &mut coll));
    assert_eq!(coll.face, 3);
    // distance 100 in units of the direction: 100 / 65536
    assert!(same_distance(coll.dist, Ratio { num: 100, den: 65536 }));
    assert!(coll.dist.den > 0);
    // the point below the origin has barycentric coordinates (1/4, 1/4)
    assert!(same_distance(coll.bary[0], Ratio { num: 1, den: 4 }));
    assert!(same_distance(coll.bary[1], Ratio { num: 1, den: 4 }));
}

#[test]
fn hit_rejects_parallel_behind_outside_and_farther() {
    let f = Face::new([Vec4(10, 0, -10, 0), Vec4(-10, 0, -10, 0), Vec4(0, 0, 10, 0)]).unwrap();
    // parallel to the plane of the face
    let mut coll = infinite();
    let r = Ray { p0: Vec4(0, 5, 0, 0), v: Vec4(ONE, 0, 0, 0), id: 1 };
    assert!(!hit_face(&r, &f, 0, &mut coll));
    assert_eq!(coll.dist, Ratio { num: 1, den: 0 });
    // the face lies behind the origin
    let r = Ray { p0: Vec4(0, 5, 0, 0), v: Vec4(0, ONE, 0, 0), id: 1 };
    assert!(!hit_face(&r, &f, 0, &mut coll));
    // the ray passes the plane outside the triangle
    let r = Ray { p0: Vec4(50, 5, 0, 0), v: Vec4(0, -ONE, 0, 0), id: 1 };
    assert!(!hit_face(&r, &f, 0, &mut coll));
    // a nearer collision is known already
    let r = Ray { p0: Vec4(0, 5, 0, 0), v: Vec4(0, -ONE, 0, 0), id: 1 };
    let mut near = infinite();
    near.dist = Ratio { num: 1, den: 65536 };
    near.face = 9;
    assert!(!hit_face(&r, &f, 0, &mut near));
    assert_eq!(near.face, 9);
    // at the same distance the face is taken
    let mut same = infinite();
    same.dist = Ratio { num: 5, den: 65536 };
    assert!(hit_face(&r, &f, 0, &mut same));
    // a ray that starts on the face meets it at distance zero
    let r = Ray { p0: Vec4(0, 0, 0, 0), v: Vec4(0, -ONE, 0, 0), id: 1 };
    let mut at = infinite();
    assert!(hit_face(&r, &f, 0, &mut at));
    assert_eq!(at.dist.num, 0);
}

#[test]
fn hit_accepts_edges_and_corners() {
    let f = Face::new([Vec4(10, 0, 0, 0), Vec4(0, 0, 10, 0), Vec4(0, 0, 0, 0)]).unwrap();
    for &(x, z, inside) in [
        (0, 0, true),
        (10, 0, true),
        (0, 10, true),
        (5, 5, true),
        (5, 0, true),
        (6, 5, false),
        (-1, 0, false),
        (0, 11, false),
    ]
    .iter()
    {
        let r = Ray { p0: Vec4(x, 7, z, 0), v: Vec4(0, -ONE, 0, 0), id: 1 };
        let mut coll = infinite();
        assert_eq!(hit_face(&r, &f, 0, &mut coll), inside, "at {} {}", x, z);
    }
}

#[test]
fn small_scene_is_one_leaf() {
    let sc = field(1);
    assert_eq!(sc.f.len(), 2);
    match sc.kd {
        KD::Leaf(ref v) => assert_eq!(*v, vec![0, 1]),
        _ => panic!("a scene of two faces is one leaf"),
    }
}

#[test]
fn tree_splits_at_mean_of_vertices() {
    let sc = field(3);
    assert_eq!(sc.f.len(), 12);
    match sc.kd {
        // the mean of the x coordinates of all vertices, rounded down:
        // (3 * (8 + 0 + 0 + 18 + 10 + 10 + 28 + 20 + 20) + same for the storey) / 36
        KD::Inner(p, _, _) => assert_eq!(p, Partition::X(12)),
        _ => panic!("twelve separable faces are split"),
    }
}

#[test]
fn leaves_keep_to_the_cutoff() {
    let sc = field(6);
    assert!(check_leaves(&sc.kd, &sc.f, 0) > 1);
    // faces along a diagonal can always be separated
    let mut b = SceneBuilder::new();
    for i in 0..20 {
        let c = i * 10;
        add_triangle(&mut b, Vec4(c + 8, c, c, 0), Vec4(c, c + 8, c, 0), Vec4(c, c, c + 8, 0));
    }
    b.finalize();
    let sc = b.into_scene();
    fn all_small(kd: &KD) -> bool {
        match kd {
            KD::Leaf(v) => v.len() <= 4,
            KD::Inner(_, l, r) => all_small(l) && all_small(r),
        }
    }
    assert!(all_small(&sc.kd));
    assert!(check_leaves(&sc.kd, &sc.f, 0) >= 5);
}

#[test]
fn faces_that_cannot_be_separated_stay_in_one_leaf() {
    // six copies of one triangle: every plane leaves all of them on one side
    let mut b = SceneBuilder::new();
    for _ in 0..6 {
        add_triangle(&mut b, Vec4(8, 0, 0, 0), Vec4(0, 0, 0, 0), Vec4(0, 0, 8, 0));
    }
    b.finalize();
    let sc = b.into_scene();
    match sc.kd {
        KD::Leaf(ref v) => assert_eq!(v.len(), 6),
        _ => panic!("identical faces cannot be separated"),
    }
}

#[test]
fn closest_hit_agrees_with_brute_force() {
    let sc = field(6);
    let mut t = Tracer::new(1, 4, sc.f.len());
    let dirs = [
        Vec4(0, -1, 0, 0),
        Vec4(1, -1, 0, 0),
        Vec4(-1, -1, 1, 0),
        Vec4(3, -1, 2, 0),
        Vec4(1, 0, 0, 0),
        Vec4(0, 1, 0, 0),
        Vec4(-2, -5, -3, 0),
        Vec4(1, 1, 1, 0),
    ];
    let mut hits = 0;
    for ox in (-5..70).step_by(7) {
        for oz in (-5..70).step_by(11) {
            for oy in [50, 20, -10].iter() {
                for d in dirs.iter() {
                    let r = Ray::new(&mut t, Vec4(ox, *oy, oz, 0), *d);
                    let got = r.trace(&mut t, &sc);
                    let want = brute_force(&r, &sc.f);
                    let linear = r.trace_linear(&sc);
                    assert_eq!(linear.map(|c| (c.dist, c.face)), want.map(|c| (c.dist, c.face)));
                    match (got, want) {
                        (None, None) => {}
                        (Some(a), Some(b)) => {
                            hits += 1;
                            assert!(same_distance(a.dist, b.dist));
                            // the face that is reported is met at that distance
                            let mut again = infinite();
                            assert!(hit_face(&r, &sc.f[a.face], a.face, &mut again));
                            assert_eq!(again.dist, a.dist);
                            assert_eq!(again.bary, a.bary);
                        }
                        _ => panic!("tree and brute force disagree on whether the ray meets a face"),
                    }
                }
            }
        }
    }
    assert!(hits > 30);
}

#[test]
fn any_hit_agrees_with_brute_force() {
    let sc = field(6);
    let mut t = Tracer::new(1, 4, sc.f.len());
    let dirs = [Vec4(0, -1, 0, 0), Vec4(2, -1, 1, 0), Vec4(1, 0, 0, 0), Vec4(0, 1, 0, 0)];
    let (mut yes, mut no) = (0, 0);
    for ox in (-5..70).step_by(5) {
        for oz in (-5..70).step_by(5) {
            for d in dirs.iter() {
                let r = Ray::new(&mut t, Vec4(ox, 40, oz, 0), *d);
                let got = r.trace_any(&mut t, &sc);
                assert_eq!(got, brute_force(&r, &sc.f).is_some());
                if got {
                    yes += 1;
                } else {
                    no += 1;
                }
            }
        }
    }
    assert!(yes > 50 && no > 50);
}

#[test]
fn ray_along_a_splitting_plane_is_not_lost() {
    let sc = field(3);
    let mut t = Tracer::new(1, 4, sc.f.len());
    // the root splits at x = 12: start on the plane and run into the small side
    let r = Ray::new(&mut t, Vec4(12, 0, 4, 0), Vec4(-1, 0, 0, 0));
    assert_eq!(r.trace(&mut t, &sc).is_some(), brute_force(&r, &sc.f).is_some());
    let r = Ray::new(&mut t, Vec4(12, 5, 1, 0), Vec4(-1, -1, 0, 0));
    let got = r.trace(&mut t, &sc).unwrap();
    let want = brute_force(&r, &sc.f).unwrap();
    assert!(same_distance(got.dist, want.dist));
}

#[test]
fn ray_ids_count_up_and_stamps_follow() {
    let sc = field(2);
    let mut t = Tracer::new(1, 4, sc.f.len());
    assert_eq!(t.next_id, 1);
    assert_eq!(t.last_ids, vec![0; sc.f.len()]);
    assert_eq!(t.get_next_id(), 1);
    let r = Ray::new(&mut t, Vec4(2, 10, 2, 0), Vec4(0, -5, 0, 0));
    assert_eq!(r.id, 2);
    assert_eq!(r.v, Vec4(0, -ONE, 0, 0));
    assert_eq!(t.next_id, 3);
    let c = r.trace(&mut t, &sc).unwrap();
    assert_eq!(t.last_ids[c.face], 2);
    assert!(t.last_ids.iter().all(|&s| s == 0 || s == 2));
    let mut coll = infinite();
    assert!(r.hit(&sc, c.face, &mut coll));
    assert_eq!(coll.dist, c.dist);
}

#[test]
fn basis_is_orthogonal_frame() {
    let (b0, b1, b2) = basis_from_b1(Vec4(0, -ONE, 0, 0));
    assert_eq!(b1, Vec4(0, -ONE, 0, 0));
    assert_eq!(b0, Vec4(-ONE, 0, 0, 0));
    assert_eq!(b2, Vec4(0, 0, ONE, 0));
    let (c0, _, c2) = basis_from_b1(Vec4(0, 0, ONE, 0));
    assert_eq!(c0, Vec4(0, -ONE, 0, 0));
    assert_eq!(c2, Vec4(-ONE, 0, 0, 0));
}
