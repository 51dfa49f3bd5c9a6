use cray::geom::fast::{Vec4, ONE};
use cray::geom::scene::{Scene, SceneBuilder};
use cray::load::obj::{FaceVertex, Importer};
use cray::render::shade::{
    blend, combine, hemi_rand, lambert, nudge, point_at, scale, shade, Draw, Sample,
};
use cray::render::trace::{basis_from_b1, Collision, Ratio, Ray, Tracer};
use cray::render::view::{
    fraction, pixel_mean, pixel_uv, render_pixel, uniform, Projection, Rectilinear,
};
use cray::util::color::Color;

fn corner(p: usize) -> FaceVertex {
    FaceVertex { p: p, t: None, n: None }
}

/// One upward-facing triangle in the plane y = 0.
fn floor() -> Scene {
    let mut b = SceneBuilder::new();
    b.add_vertex(Vec4(100, 0, -100, 0));
    b.add_vertex(Vec4(-100, 0, -100, 0));
    b.add_vertex(Vec4(0, 0, 100, 0));
    b.add_face([corner(0), corner(1), corner(2)]);
    b.finalize();
    b.into_scene()
}

/// A tracer whose sun stands straight overhead.
fn noon(max_depth: usize, nfaces: usize) -> Tracer {
    let mut t = Tracer::new(1, max_depth, nfaces);
    let (b0, b1, b2) = basis_from_b1(Vec4(0, -ONE, 0, 0));
    t.sun_basis = [b0, b1, b2];
    t
}

fn straight() -> Draw {
    Draw { hemi: Vec4(0, ONE, 0, 0), sun: Vec4(0, 0, 0, 0) }
}

struct Down;

impl Projection for Down {
    fn get_ray(&self, tracer: &mut Tracer, uv: Vec4, _lens: Vec4) -> Ray {
        // the image spans twenty lattice units of the floor
        Ray::new(tracer, Vec4(uv.0 * 10 / ONE, 50, uv.1 * 10 / ONE, 0), Vec4(0, -1, 0, 0))
    }
}

#[test]
fn tracer_starts_with_the_default_light() {
    let t = Tracer::new(1, 4, 3);
    assert_eq!(t.horizon, Color::new(20316, 26870, 47186));
    assert_eq!(t.max_depth, 4);
    // the direction of the sun's rays, (39322, -131072, -26214), has length
    // 139331; each lane times 65536 over the length, rounded down
    assert_eq!(t.sun_basis[1], Vec4(18495, -61652, -12331, 0));
    assert_eq!(t.last_ids, vec![0, 0, 0]);
}

#[test]
fn overhead_sun_lights_upward_face_fully() {
    let sc = floor();
    let mut t = noon(1, sc.f.len());
    let r = Ray::new(&mut t, Vec4(0, 50, 0, 0), Vec4(0, -1, 0, 0));
    let c = t.sample(&sc, &r, &vec![straight()]);
    // white surface times the colour of the sun times cos(0)
    assert_eq!(c, Color::new(49152, 40632, 26870));
}

#[test]
fn pixel_converges_to_surface_times_sun() {
    let sc = floor();
    let mut t = noon(1, sc.f.len());
    for samples in [1usize, 4, 16].iter() {
        let draws: Vec<Vec<Draw>> = (0..*samples).map(|_| vec![straight()]).collect();
        let lenses = vec![Vec4(0, 0, 0, 0); *samples];
        let c = render_pixel(&Down, &mut t, &sc, 5, 5, 10, 10, &lenses, &draws);
        assert_eq!(c, Color::new(49152, 40632, 26870));
    }
    let none = render_pixel(&Down, &mut t, &sc, 5, 5, 10, 10, &vec![], &vec![]);
    assert_eq!(none, Color::new(0, 0, 0));
}

#[test]
fn ray_that_leaves_the_scene_shows_the_horizon() {
    let sc = floor();
    let mut t = noon(3, sc.f.len());
    let r = Ray::new(&mut t, Vec4(0, 50, 0, 0), Vec4(0, 1, 0, 0));
    let draws = vec![straight(); 3];
    assert_eq!(t.sample(&sc, &r, &draws), t.horizon);
}

#[test]
fn depth_zero_cuts_every_path() {
    let sc = floor();
    let mut t = noon(0, sc.f.len());
    let r = Ray::new(&mut t, Vec4(0, 50, 0, 0), Vec4(0, -1, 0, 0));
    assert_eq!(t.sample(&sc, &r, &vec![]), Color::new(0, 0, 0));
}

#[test]
fn bounce_into_the_sky_adds_the_horizon() {
    let sc = floor();
    let mut t = noon(2, sc.f.len());
    let r = Ray::new(&mut t, Vec4(0, 50, 0, 0), Vec4(0, -1, 0, 0));
    let c = t.sample(&sc, &r, &vec![straight(), straight()]);
    // direct light plus the horizon seen along the normal, with cosine weight one
    assert_eq!(c, Color::new(49152 + 20316, 40632 + 26870, 26870 + 47186));
}

#[test]
fn occluder_hides_the_sun() {
    let mut b = SceneBuilder::new();
    b.add_vertex(Vec4(100, 0, -100, 0));
    b.add_vertex(Vec4(-100, 0, -100, 0));
    b.add_vertex(Vec4(0, 0, 100, 0));
    b.add_face([corner(0), corner(1), corner(2)]);
    // a roof above the floor, off the path of the first ray
    b.add_vertex(Vec4(30, 20, -30, 0));
    b.add_vertex(Vec4(-30, 20, -30, 0));
    b.add_vertex(Vec4(0, 20, 30, 0));
    b.add_face([corner(3), corner(4), corner(5)]);
    b.finalize();
    let sc = b.into_scene();
    let mut t = noon(1, sc.f.len());
    // from the side under the roof onto the floor
    let r = Ray::new(&mut t, Vec4(-60, 10, 0, 0), Vec4(6, -1, 0, 0));
    assert_eq!(t.sample(&sc, &r, &vec![straight()]), Color::new(0, 0, 0));
    let lit = t.direct_light(&sc, Vec4(80, 0, -90, 0), Vec4(0, ONE, 0, 0), Vec4(0, 0, 0, 0));
    assert_eq!(lit, Color::new(49152, 40632, 26870));
    let dark = t.direct_light(&sc, Vec4(0, 0, 0, 0), Vec4(0, ONE, 0, 0), Vec4(0, 0, 0, 0));
    assert_eq!(dark, Color::new(0, 0, 0));
}

#[test]
fn sample_colours() {
    let t = Tracer::new(1, 1, 0);
    let c = Collision {
        dist: Ratio { num: 1, den: 1 },
        face: 0,
        bary: [Ratio { num: 0, den: 1 }, Ratio { num: 0, den: 1 }],
    };
    assert_eq!(Sample::Horizon.get_color(&t), t.horizon);
    assert_eq!(Sample::MaxDepth.get_color(&t), Color::new(0, 0, 0));
    assert_eq!(Sample::Hit(c, Color::new(1, 2, 3)).get_color(&t), Color::new(1, 2, 3));
}

#[test]
fn shading_formulas() {
    // absorb * (direct + indirect), channel by channel
    let c = shade(
        Vec4(ONE, ONE / 2, 0, 0),
        Color::new(1000, 2000, 3000),
        Color::new(10, 20, 30),
    );
    assert_eq!(c, Color::new(1010, 1010, 0));
    assert_eq!(scale(Color::new(1000, -1000, 3), ONE / 4), Color::new(250, -250, 0));
    assert_eq!(lambert(Vec4(0, ONE, 0, 0), Vec4(0, ONE / 2, ONE, 0)), ONE / 2);
    assert_eq!(lambert(Vec4(0, ONE, 0, 0), Vec4(0, -ONE, 0, 0)), -ONE);
    let x = Vec4(ONE, 0, 0, 0);
    let y = Vec4(0, ONE, 0, 0);
    let z = Vec4(0, 0, ONE, 0);
    assert_eq!(combine(x, y, z, Vec4(100, 200, 300, 0)), Vec4(100, 200, 300, 0));
    assert_eq!(hemi_rand(y, Vec4(0, ONE, 0, 0)), y);
    assert_eq!(hemi_rand(y, Vec4(ONE, 0, 0, 0)), Vec4(ONE, 0, 0, 0));
}

#[test]
fn blend_weighs_by_barycentric_coordinates() {
    let a = [Vec4(ONE, 0, 0, 0), Vec4(0, ONE, 0, 0), Vec4(0, 0, ONE, 0)];
    let at = |q0: i128, q1: i128, w: i128| Collision {
        dist: Ratio { num: 1, den: 1 },
        face: 0,
        bary: [Ratio { num: q0, den: w }, Ratio { num: q1, den: w }],
    };
    assert_eq!(blend(&a, &at(1, 0, 1)), a[0]);
    assert_eq!(blend(&a, &at(0, 1, 1)), a[1]);
    assert_eq!(blend(&a, &at(0, 0, 1)), a[2]);
    assert_eq!(blend(&a, &at(1, 1, 4)), Vec4(ONE / 4, ONE / 4, ONE / 2, 0));
}

#[test]
fn points_and_origins_stay_on_the_lattice() {
    let r = Ray { p0: Vec4(0, 100, 0, 0), v: Vec4(0, -ONE, 0, 0), id: 1 };
    assert_eq!(point_at(&r, Ratio { num: 100, den: 65536 }), Vec4(0, 0, 0, 0));
    assert_eq!(point_at(&r, Ratio { num: 1, den: 131072 }), Vec4(0, 99, 0, 0));
    assert_eq!(point_at(&r, Ratio { num: 1, den: 1 }), Vec4(0, 100 - 65536, 0, 0));
    assert_eq!(point_at(&r, Ratio { num: 5, den: 1 }), Vec4(0, -262144, 0, 0));
    assert_eq!(nudge(Vec4(0, 0, 0, 0), Vec4(0, 5, 0, 0)), Vec4(0, 1, 0, 0));
    assert_eq!(nudge(Vec4(3, 3, 3, 0), Vec4(-1, 1, 0, 0)), Vec4(2, 4, 3, 0));
    assert_eq!(nudge(Vec4(262144, 0, 0, 0), Vec4(1, 0, 0, 0)), Vec4(262144, 0, 0, 0));
}

#[test]
fn image_points_span_the_longer_side() {
    assert_eq!(pixel_uv(0, 0, 10, 10, 0, 0), Vec4(-ONE, ONE, -ONE, ONE));
    assert_eq!(pixel_uv(5, 5, 10, 10, 0, 0), Vec4(0, 0, 0, 0));
    assert_eq!(pixel_uv(9, 9, 10, 10, 0, 0), Vec4(52428, -52429, 52428, -52429));
    // a wide image: rows span a part of the range only
    assert_eq!(pixel_uv(0, 0, 20, 10, 0, 0), Vec4(-ONE, ONE / 2, -ONE, ONE / 2));
    // jitter moves the point by up to one pixel
    assert_eq!(pixel_uv(5, 5, 10, 10, ONE / 2, ONE / 2), Vec4(6553, 6553, 6553, 6553));
}

#[test]
fn uniform_draws_stay_below_one() {
    let mut seen_different = false;
    let first = uniform();
    for _ in 0..1000 {
        let u = uniform();
        assert!(0 <= u && u < ONE);
        if u != first {
            seen_different = true;
        }
    }
    assert!(seen_different);
}

#[test]
fn mean_of_samples() {
    assert_eq!(pixel_mean(&vec![]), Color::new(0, 0, 0));
    assert_eq!(
        pixel_mean(&vec![Color::new(1, 10, -3), Color::new(2, 20, -4), Color::new(4, 30, -4)]),
        Color::new(2, 20, -4)
    );
}

fn unrotated() -> [Vec4; 3] {
    [Vec4(ONE, 0, 0, 0), Vec4(0, ONE, 0, 0), Vec4(0, 0, ONE, 0)]
}

#[test]
fn rectilinear_view_looks_along_minus_z() {
    let view = Rectilinear::new(Vec4(5, 6, 7, 0), unrotated(), ONE, 0, Vec4(5, 6, -93, 0));
    let mut t = Tracer::new(1, 1, 0);
    let r = view.get_ray(&mut t, Vec4(0, 0, 0, 0), Vec4(0, 0, 0, 0));
    assert_eq!(r.p0, Vec4(5, 6, 7, 0));
    assert_eq!(r.v, Vec4(0, 0, -ONE, 0));
    assert_eq!(r.id, 1);
    // with a tangent of one the corner of the image lies at 45 degrees on both axes
    let c = view.get_ray(&mut t, Vec4(ONE, ONE, ONE, ONE), Vec4(0, 0, 0, 0));
    assert_eq!(c.p0, Vec4(5, 6, 7, 0));
    // (1, 1, -1) at unit length, each lane rounded down on the way
    assert_eq!(c.v, Vec4(37836, 37836, -37838, 0));
    assert_eq!(c.id, 2);
}

#[test]
fn rectilinear_view_turns_with_its_rotation() {
    // a quarter turn about the y axis: -Z becomes -X
    let look = [Vec4(0, 0, ONE, 0), Vec4(0, ONE, 0, 0), Vec4(-ONE, 0, 0, 0)];
    let view = Rectilinear::new(Vec4(0, 0, 0, 0), look, ONE / 2, 0, Vec4(-50, 0, 0, 0));
    let mut t = Tracer::new(1, 1, 0);
    let r = view.get_ray(&mut t, Vec4(0, 0, 0, 0), Vec4(0, 0, 0, 0));
    assert_eq!(r.v, Vec4(-ONE, 0, 0, 0));
}

#[test]
fn lens_moves_the_origin_and_keeps_the_focus() {
    let view = Rectilinear::new(Vec4(0, 0, 0, 0), unrotated(), ONE, 100, Vec4(0, 0, -1000, 0));
    let mut t = Tracer::new(1, 1, 0);
    let r = view.get_ray(&mut t, Vec4(0, 0, 0, 0), Vec4(ONE, 0, 0, 0));
    assert_eq!(r.p0, Vec4(100, 0, 0, 0));
    // from (100, 0, 0) towards the focal point (0, 0, -1000)
    assert_eq!(r.v, Vec4(-6522, 0, -65211, 0));
    let s = view.get_ray(&mut t, Vec4(0, 0, 0, 0), Vec4(0, -ONE / 2, 0, 0));
    assert_eq!(s.p0, Vec4(0, -50, 0, 0));
    assert_eq!(s.v, Vec4(0, 3272, -65455, 0));
}

#[test]
fn view_along_the_focal_plane_ignores_the_lens() {
    // a matrix that flattens z: every direction runs along the focal plane
    let look = [Vec4(ONE, 0, 0, 0), Vec4(0, ONE, 0, 0), Vec4(0, 0, 0, 0)];
    let view = Rectilinear::new(Vec4(0, 0, 0, 0), look, ONE, 100, Vec4(0, 0, -1000, 0));
    let mut t = Tracer::new(1, 1, 0);
    let r = view.get_ray(&mut t, Vec4(ONE, 0, ONE, 0), Vec4(ONE, 0, 0, 0));
    assert_eq!(r.p0, Vec4(100, 0, 0, 0));
    assert_eq!(r.v, Vec4(ONE, 0, 0, 0));
}

#[test]
fn random_bits_stand_for_their_upper_half() {
    assert_eq!(fraction(0), 0);
    assert_eq!(fraction(65535), 0);
    assert_eq!(fraction(65536), 1);
    assert_eq!(fraction(0x8000_0000), ONE / 2);
    assert_eq!(fraction(u32::MAX), ONE - 1);
}
