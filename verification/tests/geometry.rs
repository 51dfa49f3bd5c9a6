use cray::geom::fast::{
    div_floor, isqrt, m_mul_v, on_lattice, one, scalar, v_add_v, v_cross_v, v_dot_v, v_len, v_normalize,
    v_sub_v, v_unscale, within_lanes, zero, Plane, Vec4, ONE,
};
use cray::geom::scene::Face;

#[test]
fn cross_of_axes_is_third_axis() {
    let x = Vec4(1, 0, 0, 0);
    let y = Vec4(0, 1, 0, 0);
    assert_eq!(v_cross_v(x, y), Vec4(0, 0, 1, 0));
    assert_eq!(v_cross_v(y, x), Vec4(0, 0, -1, 0));
    assert_eq!(v_cross_v(Vec4(1, 2, 3, 9), Vec4(4, 5, 6, 9)), Vec4(-3, 6, -3, 0));
    assert_eq!(v_dot_v(x, y), 0);
    assert_eq!(v_dot_v(Vec4(1, 2, 3, 4), Vec4(5, 6, 7, 8)), 70);
}

#[test]
fn constant_vectors() {
    assert_eq!(zero(), Vec4(0, 0, 0, 0));
    assert_eq!(one(), Vec4(ONE, ONE, ONE, ONE));
    assert_eq!(scalar(7), Vec4(7, 7, 7, 7));
    assert_eq!(v_add_v(Vec4(1, 2, 3, 4), Vec4(10, 20, 30, 40)), Vec4(11, 22, 33, 44));
    assert_eq!(v_sub_v(Vec4(1, 2, 3, 4), Vec4(10, 20, 30, 40)), Vec4(-9, -18, -27, -36));
    assert_eq!(v_unscale(Vec4(65536, -1, 131071, 0)), Vec4(1, -1, 1, 0));
}

#[test]
fn length_is_rounded_down_root() {
    assert_eq!(v_len(Vec4(3, 4, 0, 0)), 5);
    assert_eq!(v_len(Vec4(1, 1, 0, 0)), 1);
    assert_eq!(v_len(Vec4(0, 0, 0, 0)), 0);
    assert_eq!(v_len(Vec4(2, 2, 2, 2)), 4);
    assert_eq!(isqrt(0), 0);
    assert_eq!(isqrt(15), 3);
    assert_eq!(isqrt(16), 4);
    assert_eq!(isqrt(1 << 96), 1 << 48);
}

#[test]
fn normalize_scales_to_fixed_point_one() {
    assert_eq!(v_normalize(Vec4(0, 0, 10, 0)), Vec4(0, 0, ONE, 0));
    assert_eq!(v_normalize(Vec4(-7, 0, 0, 0)), Vec4(-ONE, 0, 0, 0));
    // 3-4-5: lanes 0.6 and 0.8, rounded down
    assert_eq!(v_normalize(Vec4(300, 400, 0, 0)), Vec4(39321, 52428, 0, 0));
    assert_eq!(v_normalize(Vec4(0, 0, 0, 0)), Vec4(0, 0, 0, 0));
}

#[test]
fn floor_division_rounds_down() {
    assert_eq!(div_floor(7, 2), 3);
    assert_eq!(div_floor(-7, 2), -4);
    assert_eq!(div_floor(-8, 2), -4);
    assert_eq!(div_floor(0, 5), 0);
}

#[test]
fn matrix_times_pair() {
    // [[1, 2], [3, 4]] * (5, 6)
    assert_eq!(m_mul_v(Vec4(1, 2, 3, 4), Vec4(5, 6, 5, 6)), Vec4(17, 39, 17, 39));
}

#[test]
fn projection_picks_two_lanes() {
    let v = Vec4(1, 2, 3, 0);
    assert_eq!(Plane::XY.proj(v), Vec4(1, 2, 1, 2));
    assert_eq!(Plane::YZ.proj(v), Vec4(2, 3, 2, 3));
    assert_eq!(Plane::XZ.proj(v), Vec4(1, 3, 1, 3));
    assert_eq!(Plane::XY.area(Vec4(2, 0, 5, 0), Vec4(0, 3, 7, 0)), 6);
    assert_eq!(Plane::XY.area(Vec4(0, 3, 7, 0), Vec4(2, 0, 5, 0)), 6);
}

#[test]
fn face_of_collinear_points_is_dropped() {
    let a = Vec4(0, 0, 0, 0);
    let b = Vec4(1, 1, 1, 0);
    let c = Vec4(2, 2, 2, 0);
    assert!(Face::new([a, b, c]).is_none());
    assert!(Face::new([a, a, b]).is_none());
    assert!(Face::new([a, a, a]).is_none());
}

#[test]
fn face_of_spanning_points_is_created() {
    assert!(Face::new([Vec4(0, 0, 0, 0), Vec4(1, 0, 0, 0), Vec4(0, 0, 1, 0)]).is_some());
    assert!(Face::new([Vec4(262144, 0, 0, 0), Vec4(0, -262144, 0, 0), Vec4(0, 0, 262144, 0)])
        .is_some());
}

#[test]
fn face_picks_plane_of_largest_area() {
    let f = Face::new([Vec4(4, 0, 0, 0), Vec4(0, 4, 0, 0), Vec4(0, 0, 0, 0)]).unwrap();
    assert_eq!(f.plane, Plane::XY);
    assert_eq!(f.det, 16);
    assert_eq!(f.Tinv, Vec4(4, 0, 0, 4));
    assert_eq!(f.n, Vec4(0, 0, ONE, 0));
    assert_eq!(f.vn, [f.n, f.n, f.n]);
    assert_eq!(f.vc, [Vec4(ONE, ONE, ONE, 0); 3]);
    let g = Face::new([Vec4(0, 4, 0, 0), Vec4(0, 0, 4, 0), Vec4(0, 0, 0, 0)]).unwrap();
    assert_eq!(g.plane, Plane::YZ);
    let h = Face::new([Vec4(4, 0, 0, 0), Vec4(0, 0, 4, 0), Vec4(0, 0, 0, 0)]).unwrap();
    assert_eq!(h.plane, Plane::XZ);
    // a tie between all three planes goes to the first
    let t = Face::new([Vec4(1, 0, 0, 0), Vec4(0, 1, 0, 0), Vec4(0, 0, 1, 0)]).unwrap();
    assert_eq!(t.plane, Plane::XY);
}

#[test]
fn chosen_plane_has_largest_projected_area() {
    let tris = [
        [Vec4(3, 1, 9, 0), Vec4(-5, 2, 0, 0), Vec4(7, 7, -7, 0)],
        [Vec4(0, 0, 0, 0), Vec4(0, 9, 1, 0), Vec4(0, 2, 8, 0)],
        [Vec4(100, -3, 5, 0), Vec4(-100, 4, 6, 0), Vec4(1, 1, 1000, 0)],
    ];
    for vp in tris.iter() {
        let f = Face::new(*vp).unwrap();
        let e02 = v_sub_v(vp[0], vp[2]);
        let e12 = v_sub_v(vp[1], vp[2]);
        let chosen = f.plane.area(e02, e12);
        for p in [Plane::XY, Plane::YZ, Plane::XZ].iter() {
            assert!(chosen >= p.area(e02, e12));
        }
        assert_eq!(chosen, f.det.abs());
    }
}

#[test]
fn inverse_transform_recovers_vertices() {
    let vp = [Vec4(3, 1, 9, 0), Vec4(-5, 2, 0, 0), Vec4(7, 7, -7, 0)];
    let f = Face::new(vp).unwrap();
    let expect = [(f.det, 0), (0, f.det), (0, 0)];
    for k in 0..3 {
        let c = f.plane.proj(v_sub_v(vp[k], vp[2]));
        let q = m_mul_v(f.Tinv, c);
        assert_eq!((q.0, q.1), expect[k]);
    }
}

#[test]
fn lattice_membership() {
    assert!(on_lattice(Vec4(262144, -262144, 0, 0)));
    assert!(!on_lattice(Vec4(262145, 0, 0, 0)));
    assert!(!on_lattice(Vec4(0, 0, 0, 1)));
    assert!(within_lanes(Vec4(1, -2, 3, -4), 4));
    assert!(!within_lanes(Vec4(1, -2, 3, -5), 4));
}
