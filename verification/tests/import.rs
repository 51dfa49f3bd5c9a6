use cray::geom::fast::{Vec4, ONE};
use cray::geom::kd::{Decoder, KD};
use cray::geom::scene::SceneBuilder;
use cray::load::config::{
    Config, ConfigError, EquirectangularSettings, Field, RectilinearSettings, ViewKind, ONE_BITS,
};
use cray::load::obj::{
    decode_index, directive, fields, parse_face_vertex, parse_integer, read_face, Directive,
    FaceError, FaceVertex, Importer, ReaderContext,
};
use cray::theater::actor::{deliver, Actor, ActorRef, LocalActorRef, RemoteActorRef};
use cray::theater::container::{Container, Envelope};
use rustc_serialize::json;
use rustc_serialize::Decodable;

fn context() -> ReaderContext {
    ReaderContext { nvert: 10, ntexc: 5, nnorm: 3, ntri: 0 }
}

#[test]
fn indices_count_from_one_or_back_from_the_end() {
    assert_eq!(decode_index(1, 10), 0);
    assert_eq!(decode_index(10, 10), 9);
    assert_eq!(decode_index(-1, 10), 9);
    assert_eq!(decode_index(-10, 10), 0);
    // what names no record wraps around and is found out of range later
    assert_eq!(decode_index(0, 10), usize::MAX);
    assert_eq!(decode_index(-11, 10), usize::MAX);
    assert_eq!(decode_index(isize::MIN, 0), (isize::MAX as usize) + 1);
    assert_eq!(decode_index(isize::MAX, 0), isize::MAX as usize - 1);
}

#[test]
fn integers_are_parsed_with_signs() {
    let p = |s: &str| parse_integer(&s.chars().collect());
    assert_eq!(p("0"), Some(0));
    assert_eq!(p("42"), Some(42));
    assert_eq!(p("-17"), Some(-17));
    assert_eq!(p("+8"), Some(8));
    assert_eq!(p("007"), Some(7));
    assert_eq!(p(""), None);
    assert_eq!(p("-"), None);
    assert_eq!(p("+"), None);
    assert_eq!(p("1.5"), None);
    assert_eq!(p("12a"), None);
    assert_eq!(p(" 1"), None);
    assert_eq!(p("--1"), None);
    assert_eq!(p("9223372036854775807"), Some(isize::MAX));
    assert_eq!(p("-9223372036854775808"), Some(isize::MIN));
    assert_eq!(p("9223372036854775808"), None);
    assert_eq!(p("99999999999999999999999999999999"), None);
}

#[test]
fn face_vertices_are_parsed() {
    let c = context();
    assert_eq!(parse_face_vertex(&c, "3"), Some(FaceVertex { p: 2, t: None, n: None }));
    assert_eq!(parse_face_vertex(&c, "3/2"), Some(FaceVertex { p: 2, t: Some(1), n: None }));
    assert_eq!(parse_face_vertex(&c, "3/2/1"), Some(FaceVertex { p: 2, t: Some(1), n: Some(0) }));
    assert_eq!(parse_face_vertex(&c, "3//1"), Some(FaceVertex { p: 2, t: None, n: Some(0) }));
    assert_eq!(parse_face_vertex(&c, "-1/-1/-1"), Some(FaceVertex { p: 9, t: Some(4), n: Some(2) }));
    assert_eq!(parse_face_vertex(&c, ""), Some(FaceVertex { p: 0, t: None, n: None }));
    assert_eq!(parse_face_vertex(&c, "//"), Some(FaceVertex { p: 0, t: None, n: None }));
    assert_eq!(parse_face_vertex(&c, "1/2/3/4"), Some(FaceVertex { p: 0, t: Some(1), n: Some(2) }));
    assert_eq!(parse_face_vertex(&c, "1/x"), None);
    assert_eq!(parse_face_vertex(&c, "x/1"), None);
    assert_eq!(parse_face_vertex(&c, "1/2/3/x"), None);
    assert_eq!(parse_face_vertex(&c, "1.0"), None);
}

fn square() -> SceneBuilder {
    let mut b = SceneBuilder::new();
    b.add_vertex(Vec4(0, 0, 0, 0));
    b.add_vertex(Vec4(10, 0, 0, 0));
    b.add_vertex(Vec4(10, 0, 10, 0));
    b.add_vertex(Vec4(0, 0, 10, 0));
    b.add_texcoord(Vec4(ONE, 0, 0, 0));
    b.add_normal(Vec4(0, 5, 0, 0));
    b
}

fn words(s: &str) -> Vec<String> {
    s.split(' ').map(|w| w.to_string()).collect()
}

#[test]
fn face_records_become_triangles() {
    let mut b = square();
    let mut c = ReaderContext { nvert: 4, ntexc: 1, nnorm: 1, ntri: 0 };
    assert_eq!(read_face(&mut c, &words("1 2 3"), &mut b), Ok(1));
    assert_eq!((c.ntri, b.f.len()), (1, 1));
    assert_eq!(b.f[0].vp, [Vec4(0, 0, 0, 0), Vec4(10, 0, 0, 0), Vec4(10, 0, 10, 0)]);
    // a quadrangle is split along the diagonal from its third to its first corner
    assert_eq!(read_face(&mut c, &words("1 2 3 4"), &mut b), Ok(2));
    assert_eq!((c.ntri, b.f.len()), (3, 3));
    assert_eq!(b.f[1].vp, [Vec4(0, 0, 0, 0), Vec4(10, 0, 0, 0), Vec4(10, 0, 10, 0)]);
    assert_eq!(b.f[2].vp, [Vec4(10, 0, 10, 0), Vec4(0, 0, 10, 0), Vec4(0, 0, 0, 0)]);
    // other numbers of corners are skipped
    assert_eq!(read_face(&mut c, &words("1 2"), &mut b), Ok(0));
    assert_eq!(read_face(&mut c, &words("1 2 3 4 1"), &mut b), Ok(0));
    assert_eq!(read_face(&mut c, &words("1 2 x y z"), &mut b), Ok(0));
    assert_eq!((c.ntri, b.f.len()), (3, 3));
    assert_eq!(read_face(&mut c, &words("1 2 x"), &mut b), Err(FaceError::Malformed));
    assert_eq!(read_face(&mut c, &words("1 2 5"), &mut b), Err(FaceError::OutOfRange));
    assert_eq!(read_face(&mut c, &words("1 2 0"), &mut b), Err(FaceError::OutOfRange));
    assert_eq!(read_face(&mut c, &words("1/2 2 3"), &mut b), Err(FaceError::OutOfRange));
    assert_eq!(read_face(&mut c, &words("1//2 2 3"), &mut b), Err(FaceError::OutOfRange));
    assert_eq!((c.ntri, b.f.len(), b.dropped_faces), (3, 3, 0));
    // a record without area counts as taken and is dropped by the builder
    assert_eq!(read_face(&mut c, &words("1 1 2"), &mut b), Ok(1));
    assert_eq!((c.ntri, b.f.len(), b.dropped_faces), (4, 3, 1));
    c.ntri = 0x800_0000 - 1;
    assert_eq!(read_face(&mut c, &words("1 2 3 4"), &mut b), Err(FaceError::TooMany));
}

#[test]
fn builder_smooths_and_colours_on_finalize() {
    let mut b = square();
    let up = Vec4(0, ONE, 0, 0);
    // both triangles face upwards
    b.add_face([
        FaceVertex { p: 2, t: Some(0), n: None },
        FaceVertex { p: 1, t: None, n: Some(0) },
        FaceVertex { p: 0, t: None, n: None },
    ]);
    b.add_face([
        FaceVertex { p: 0, t: None, n: None },
        FaceVertex { p: 3, t: None, n: None },
        FaceVertex { p: 2, t: None, n: None },
    ]);
    b.add_face([
        FaceVertex { p: 0, t: None, n: None },
        FaceVertex { p: 0, t: None, n: None },
        FaceVertex { p: 2, t: None, n: None },
    ]);
    assert_eq!(b.dropped_faces, 1);
    assert_eq!(b.f.len(), 2);
    assert_eq!(b.f[0].n, up);
    // the corners shared by both faces have gathered two normals
    assert_eq!(b.vn_acc, vec![Vec4(0, 2 * ONE, 0, 0), up, Vec4(0, 2 * ONE, 0, 0), up]);
    assert_eq!(b.vertices(1), &[Vec4(0, 0, 0, 0), Vec4(0, 0, 10, 0), Vec4(10, 0, 10, 0)][..]);
    b.finalize();
    assert_eq!(b.vn_acc, vec![up; 4]);
    assert_eq!(b.f[0].vn, [up, up, up]);
    assert_eq!(b.f[0].vc, [Vec4(ONE, 0, 0, 0), Vec4(ONE, ONE, ONE, 0), Vec4(ONE, ONE, ONE, 0)]);
    assert_eq!(b.f[1].vc, [Vec4(ONE, ONE, ONE, 0); 3]);
    let sc = b.into_scene();
    assert_eq!(sc.f.len(), 2);
    match sc.kd {
        KD::Leaf(ref v) => assert_eq!(*v, vec![0, 1]),
        _ => panic!("two faces make one leaf"),
    }
}

#[test]
fn normal_records_are_scaled_to_unit_length() {
    let mut b = SceneBuilder::new();
    b.add_normal(Vec4(0, 0, -3, 0));
    b.add_normal(Vec4(300, 400, 0, 77));
    assert_eq!(b.vn, vec![Vec4(0, 0, -ONE, 0), Vec4(39321, 52428, 0, 0)]);
    b.add_texcoord(Vec4(1, 2, 3, 4));
    assert_eq!(b.vc, vec![Vec4(1, 2, 3, 0)]);
}

fn config(text: &str) -> Result<Config, ConfigError> {
    let value: toml::Value = text.parse().unwrap();
    Config::load(&value)
}

const FULL: &str = r#"
threads = 8
cols = 640
rows = 480
samples = 100
max_depth = 6
branch = 2
gamma = 2.2
obj = "scene.obj"

[view]
type = "rectilinear"
fov = 60.0
"#;

#[test]
fn settings_are_read_from_configuration() {
    let c = config(FULL).unwrap();
    assert_eq!((c.threads, c.cols, c.rows, c.samples, c.max_depth, c.branch), (8, 640, 480, 100, 6, 2));
    assert_eq!(c.gamma, (2.2f64).to_bits());
    assert_eq!(c.view, ViewKind::Rectilinear);
    assert_eq!(c.obj, "scene.obj");
}

#[test]
fn settings_have_defaults() {
    let c = config("cols = 4\nrows = 3\nobj = \"a\"\n[view]\ntype = \"equirectangular\"\n").unwrap();
    assert_eq!((c.threads, c.cols, c.rows, c.samples, c.max_depth, c.branch), (1, 4, 3, 20, 4, 1));
    assert_eq!(c.gamma, ONE_BITS);
    assert_eq!(c.gamma, (1.0f64).to_bits());
    assert_eq!(c.view, ViewKind::Equirectangular);
    assert_eq!(c.threads, 1);
}

#[test]
fn first_failing_setting_decides_the_error() {
    let e = |text: &str| config(text).unwrap_err();
    assert_eq!(e(""), ConfigError::ViewMissing);
    assert_eq!(e("view = 3"), ConfigError::ViewNotTable);
    assert_eq!(e("[view]\nfov = 1.0"), ConfigError::ViewTypeMissing);
    assert_eq!(e("[view]\ntype = 1"), ConfigError::ViewTypeNotString);
    assert_eq!(e("[view]\ntype = \"fisheye\""), ConfigError::UnknownViewType);
    let view = "[view]\ntype = \"rectilinear\"\n";
    assert_eq!(e(&format!("threads = \"x\"\n{}", view)), ConfigError::NotInteger(Field::Threads));
    assert_eq!(e(view), ConfigError::Missing(Field::Cols));
    assert_eq!(e(&format!("cols = 1.5\n{}", view)), ConfigError::NotInteger(Field::Cols));
    assert_eq!(e(&format!("cols = 1\n{}", view)), ConfigError::Missing(Field::Rows));
    assert_eq!(e(&format!("cols = 1\nrows = true\n{}", view)), ConfigError::NotInteger(Field::Rows));
    let size = format!("cols = 1\nrows = 1\n");
    assert_eq!(e(&format!("{}samples = []\n{}", size, view)), ConfigError::NotInteger(Field::Samples));
    assert_eq!(e(&format!("{}max_depth = \"4\"\n{}", size, view)), ConfigError::NotInteger(Field::MaxDepth));
    assert_eq!(e(&format!("{}branch = 0.5\n{}", size, view)), ConfigError::NotInteger(Field::Branch));
    assert_eq!(e(&format!("{}gamma = 2\n{}", size, view)), ConfigError::GammaNotFloat);
    assert_eq!(e(&format!("{}{}", size, view)), ConfigError::ObjMissing);
    assert_eq!(e(&format!("{}obj = 7\n{}", size, view)), ConfigError::ObjNotString);
    // the view is looked at before everything else
    assert_eq!(e("cols = \"x\""), ConfigError::ViewMissing);
}

#[test]
fn errors_have_messages() {
    assert_eq!(ConfigError::ViewMissing.message(), "'view' missing");
    assert_eq!(ConfigError::ViewNotTable.message(), "'view' should be a table");
    assert_eq!(ConfigError::NotInteger(Field::Cols).message(), "'cols' should be an integer");
    assert_eq!(ConfigError::Missing(Field::Rows).message(), "'rows' missing");
    assert_eq!(ConfigError::GammaNotFloat.message(), "'gamma' should be a floating point value");
    assert_eq!(ConfigError::UnknownViewType.message(), "unknown view type");
}

struct DumyMessage(i32);

impl rustc_serialize::Encodable for DumyMessage {
    fn encode<S: rustc_serialize::Encoder>(&self, s: &mut S) -> Result<(), S::Error> {
        s.emit_i32(self.0)
    }
}

impl rustc_serialize::Decodable for DumyMessage {
    fn decode<D: rustc_serialize::Decoder>(d: &mut D) -> Result<DumyMessage, D::Error> {
        d.read_i32().map(DumyMessage)
    }
}

struct DumyActor {
    value: i32,
}

impl DumyActor {
    fn new_with_value(val: i32) -> DumyActor {
        DumyActor { value: val }
    }
}

impl Actor for DumyActor {
    type Message = DumyMessage;

    fn recv(&mut self, DumyMessage(val): DumyMessage) {
        self.value = val;
    }
}

fn decoded(parsed: rustc_serialize::json::Json) -> Result<DumyMessage, rustc_serialize::json::DecoderError> {
    DumyMessage::decode(&mut rustc_serialize::json::Decoder::new(parsed))
}

#[test]
fn test_encode_decode_deliver_works() {
    let mut actor = DumyActor::new_with_value(5);
    let encoded = match json::encode(&DumyMessage(7)) {
        Ok(v) => v,
        Err(_) => panic!("encode failed"),
    };
    let parsed = match json::Json::from_str(&encoded[..]) {
        Ok(v) => v,
        Err(_) => panic!("parse failed"),
    };

    deliver(&mut actor, decoded(parsed));

    assert_eq!(actor.value, 7);
}

#[test]
fn test_delivery_failure_on_parse() {
    let mut actor = DumyActor::new_with_value(5);
    let parsed = match json::Json::from_str("[]") {
        Ok(v) => v,
        Err(_) => panic!("parse failed"),
    };

    deliver(&mut actor, decoded(parsed));

    assert_eq!(actor.value, 5);
}

#[test]
fn container_delivers_by_address() {
    let mut c = Container {
        actors: vec![(7, DumyActor::new_with_value(0)), (9, DumyActor::new_with_value(0))],
    };
    assert_eq!(c.actor_for(9), Some(1));
    assert_eq!(c.actor_for(8), None);
    let queue: Vec<Envelope<DumyMessage, ()>> = vec![
        Envelope { address: 9, message: Ok(DumyMessage(1)) },
        Envelope { address: 8, message: Ok(DumyMessage(2)) },
        Envelope { address: 9, message: Err(()) },
        Envelope { address: 9, message: Ok(DumyMessage(3)) },
        Envelope { address: 9, message: Ok(DumyMessage(4)) },
    ];
    c.run(queue);
    // the messages arrive in the order of the queue: the last one stays
    assert_eq!((c.actors[0].0, c.actors[0].1.value), (7, 0));
    assert_eq!((c.actors[1].0, c.actors[1].1.value), (9, 4));
}

#[test]
fn container_delivers_to_the_first_actor_of_an_address() {
    let mut c = Container {
        actors: vec![(3, DumyActor::new_with_value(0)), (3, DumyActor::new_with_value(0))],
    };
    let queue: Vec<Envelope<DumyMessage, ()>> = vec![
        Envelope { address: 3, message: Ok(DumyMessage(5)) },
        Envelope { address: 3, message: Err(()) },
    ];
    c.run(queue);
    assert_eq!((c.actors[0].1.value, c.actors[1].1.value), (5, 0));
    c.run(Vec::<Envelope<DumyMessage, ()>>::new());
    assert_eq!((c.actors[0].1.value, c.actors[1].1.value), (5, 0));
}

#[test]
fn actor_references_compare_by_place() {
    let a = ActorRef::Local(LocalActorRef { thread: 1, ident: 2 });
    let b = ActorRef::Local(LocalActorRef { thread: 1, ident: 2 });
    assert_eq!(a, b);
    assert_ne!(a, ActorRef::Remote(RemoteActorRef));
    assert_ne!(a, ActorRef::Local(LocalActorRef { thread: 1, ident: 3 }));
}

#[test]
fn lines_are_split_into_fields() {
    assert_eq!(fields("v 1.0 2 -3"), vec!["v", "1.0", "2", "-3"]);
    assert_eq!(fields("  f   1/2/3  4//5 "), vec!["f", "1/2/3", "4//5"]);
    assert_eq!(fields("vn 0 1 0 # up"), vec!["vn", "0", "1", "0"]);
    assert_eq!(fields("v 1 2 3\r"), vec!["v", "1", "2", "3"]);
    assert_eq!(fields("# a comment"), Vec::<String>::new());
    assert_eq!(fields(""), Vec::<String>::new());
    assert_eq!(fields("    "), Vec::<String>::new());
    assert_eq!(fields("a\tb c#d e"), vec!["a\tb", "c"]);
    assert_eq!(fields("a\rb c"), vec!["a"]);
}

#[test]
fn lines_are_told_apart_by_their_first_field() {
    let d = |ln: &str| directive(&fields(ln));
    assert_eq!(d(""), Directive::Empty);
    assert_eq!(d("   # nothing"), Directive::Empty);
    assert_eq!(d("v 1 2 3"), Directive::Vertex);
    assert_eq!(d("vt 0.5 0.5"), Directive::TexCoord);
    assert_eq!(d("vn 0 1 0"), Directive::Normal);
    assert_eq!(d("f 1 2 3"), Directive::Face);
    for ln in ["g group", "o object", "s off", "mtllib a.mtl", "usemtl red"].iter() {
        assert_eq!(d(ln), Directive::Ignored);
    }
    assert_eq!(d("vp 1 2"), Directive::Unknown);
    assert_eq!(d("V 1 2 3"), Directive::Unknown);
    assert_eq!(d("ff"), Directive::Unknown);
}

fn bits(x: f64) -> u64 {
    x.to_bits()
}

#[test]
fn view_parameters_are_read_from_their_table() {
    let table: toml::Value = "position = [1.0, 2.5, -3.0]\nrotation = [0.0, 90.0, 0.0]\nfov = 60.0\naperture = 0.25\nfocal = [0.0, 1.0, -7.5]\n"
        .parse()
        .unwrap();
    let r = RectilinearSettings::from_toml(&table).unwrap();
    assert_eq!(r.position, [bits(1.0), bits(2.5), bits(-3.0)]);
    assert_eq!(r.rotation, [bits(0.0), bits(90.0), bits(0.0)]);
    assert_eq!(r.fov, bits(60.0));
    assert_eq!(r.aperture, bits(0.25));
    assert_eq!(r.focal, [bits(0.0), bits(1.0), bits(-7.5)]);
    let e = EquirectangularSettings::from_toml(&table).unwrap();
    assert_eq!(e.position, [bits(1.0), bits(2.5), bits(-3.0)]);
}

#[test]
fn incomplete_view_tables_give_no_parameters() {
    let parse = |t: &str| -> toml::Value { t.parse().unwrap() };
    let full = "position = [1.0, 2.0, 3.0]\nrotation = [0.0, 0.0, 0.0]\nfov = 60.0\naperture = \"wide\"\nfocal = [0.0, 0.0, 0.0]\n";
    // aperture and focal point count as zero where they are no floats
    let r = RectilinearSettings::from_toml(&parse(full)).unwrap();
    assert_eq!(r.aperture, 0);
    let odd = full.replace("focal = [0.0, 0.0, 0.0]", "focal = [1, 2, 3]");
    let r = RectilinearSettings::from_toml(&parse(&odd)).unwrap();
    assert_eq!(r.focal, [0, 0, 0]);
    for broken in [
        "rotation = [0.0, 0.0, 0.0]\nfov = 60.0\naperture = 0.0\nfocal = [0.0, 0.0, 0.0]\n",
        "position = [1.0, 2.0]\nrotation = [0.0, 0.0, 0.0]\nfov = 60.0\naperture = 0.0\nfocal = [0.0, 0.0, 0.0]\n",
        "position = [1, 2, 3]\nrotation = [0.0, 0.0, 0.0]\nfov = 60.0\naperture = 0.0\nfocal = [0.0, 0.0, 0.0]\n",
        "position = [1.0, 2.0, 3.0]\nfov = 60.0\naperture = 0.0\nfocal = [0.0, 0.0, 0.0]\n",
        "position = [1.0, 2.0, 3.0]\nrotation = [0.0, 0.0, 0.0]\nfov = 60\naperture = 0.0\nfocal = [0.0, 0.0, 0.0]\n",
        "position = [1.0, 2.0, 3.0]\nrotation = [0.0, 0.0, 0.0]\nfov = 60.0\nfocal = [0.0, 0.0, 0.0]\n",
        "position = [1.0, 2.0, 3.0]\nrotation = [0.0, 0.0, 0.0]\nfov = 60.0\naperture = 0.0\nfocal = [0.0, 0.0]\n",
    ]
    .iter()
    {
        assert!(RectilinearSettings::from_toml(&parse(broken)).is_none(), "{}", broken);
    }
    assert!(EquirectangularSettings::from_toml(&parse("position = [1.0, 2.0]")).is_none());
    assert!(EquirectangularSettings::from_toml(&parse("fov = 1.0")).is_none());
}
