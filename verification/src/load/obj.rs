//! The records of a Wavefront OBJ file and the importer that receives them.
//!
//! Reading lines and numbers is left to the caller; this module decodes the
//! face records, whose indices refer to the records read so far, and hands
//! triangles to an `Importer`.

use vstd::prelude::*;
use vstd::string::*;
use crate::geom::fast::{fits, in_lattice, Vec4, ONE, WIDE_MAX};

verus! {

/// A vertex position record.
pub type Vertex = Vec4;

/// A texture coordinate record.
pub type TexCoord = Vec4;

/// A vertex normal record.
pub type Normal = Vec4;

/// The greatest number of face records that an importer takes.
pub const MAX_FACES: usize = 0x800_0000;

/// A single vertex in a face record.
#[derive(Copy, Clone, Debug, PartialEq, Eq, Structural)]
pub struct FaceVertex {
    /// The index of the vertex position record.
    pub p: usize,
    /// The index of the texture coordinate record, if one was given.
    pub t: Option<usize>,
    /// The index of the vertex normal record, if one was given.
    pub n: Option<usize>,
}

/// Receives the records of a scene description and stores them.
pub trait Importer {
    /// The importer is in a state in which it takes records.
    spec fn inv(&self) -> bool;

    /// The number of vertex position records taken.
    spec fn n_vertices(&self) -> nat;

    /// The number of texture coordinate records taken.
    spec fn n_texcoords(&self) -> nat;

    /// The number of vertex normal records taken.
    spec fn n_normals(&self) -> nat;

    /// The face records taken, in order, each with its three corners.
    spec fn faces(&self) -> Seq<Seq<FaceVertex>>;

    /// Called after the last record, to compute what depends on all of them.
    fn finalize(&mut self)
        requires
            old(self).inv(),
        ensures
            final(self).inv(),
            final(self).n_vertices() == old(self).n_vertices(),
            final(self).n_texcoords() == old(self).n_texcoords(),
            final(self).n_normals() == old(self).n_normals(),
            final(self).faces() == old(self).faces(),
    ;

    /// Takes a vertex position record.
    fn add_vertex(&mut self, vp: Vertex)
        requires
            old(self).inv(),
            in_lattice(vp),
        ensures
            final(self).inv(),
            final(self).n_vertices() == old(self).n_vertices() + 1,
            final(self).n_texcoords() == old(self).n_texcoords(),
            final(self).n_normals() == old(self).n_normals(),
            final(self).faces() == old(self).faces(),
    ;

    /// Takes a texture coordinate record.
    fn add_texcoord(&mut self, vt: TexCoord)
        requires
            old(self).inv(),
            fits(vt, ONE as int),
        ensures
            final(self).inv(),
            final(self).n_vertices() == old(self).n_vertices(),
            final(self).n_texcoords() == old(self).n_texcoords() + 1,
            final(self).n_normals() == old(self).n_normals(),
            final(self).faces() == old(self).faces(),
    ;

    /// Takes a vertex normal record.
    fn add_normal(&mut self, vn: Normal)
        requires
            old(self).inv(),
            fits(vn, WIDE_MAX as int),
        ensures
            final(self).inv(),
            final(self).n_vertices() == old(self).n_vertices(),
            final(self).n_texcoords() == old(self).n_texcoords(),
            final(self).n_normals() == old(self).n_normals() + 1,
            final(self).faces() == old(self).faces(),
    ;

    /// Takes a triangular face record, whose indices name records taken before.
    fn add_face(&mut self, f: [FaceVertex; 3])
        requires
            old(self).inv(),
            old(self).faces().len() < MAX_FACES,
            refers(f[0], old(self).n_vertices(), old(self).n_texcoords(), old(self).n_normals()),
            refers(f[1], old(self).n_vertices(), old(self).n_texcoords(), old(self).n_normals()),
            refers(f[2], old(self).n_vertices(), old(self).n_texcoords(), old(self).n_normals()),
        ensures
            final(self).inv(),
            final(self).n_vertices() == old(self).n_vertices(),
            final(self).n_texcoords() == old(self).n_texcoords(),
            final(self).n_normals() == old(self).n_normals(),
            final(self).faces() == old(self).faces().push(f@),
    ;
}

/// The indices of `v` name records among `nvert` positions, `ntexc` texture
/// coordinates and `nnorm` normals.
pub open spec fn refers(v: FaceVertex, nvert: nat, ntexc: nat, nnorm: nat) -> bool {
    &&& v.p < nvert
    &&& v.t matches Some(t) ==> t < ntexc
    &&& v.n matches Some(n) ==> n < nnorm
}

/// The numbers of records read so far.
pub struct ReaderContext {
    pub nvert: usize,
    pub ntexc: usize,
    pub nnorm: usize,
    pub ntri: usize,
}

/// The zero-based index that the one-based or backward index `idx` names
/// among `n` records, reduced to the range of `usize`.
pub open spec fn decode_spec(idx: int, n: int) -> int {
    let x = if idx < 0 {
        idx + n
    } else {
        idx - 1
    };
    if x < 0 {
        x + usize::MAX + 1
    } else {
        x
    }
}

/// Decodes an index of a face record: a positive index counts from the first
/// record, starting at one, and a negative index counts back from the last.
pub fn decode_index(idx: isize, n: usize) -> (r: usize)
    ensures
        r == decode_spec(idx as int, n as int),
{
    if idx < 0 {
        // the magnitude of `idx`, which may be one more than `isize::MAX`
        let m: usize = (-(idx + 1)) as usize + 1;
        if m <= n {
            n - m
        } else {
            usize::MAX - (m - n) + 1
        }
    } else if idx == 0 {
        usize::MAX
    } else {
        (idx - 1) as usize
    }
}

/// The value of the decimal digit `c`, if it is one.
pub open spec fn digit_value(c: char) -> Option<int> {
    if '0' <= c && c <= '9' {
        Some(c as int - '0' as int)
    } else {
        None
    }
}

/// The number that the decimal digits `s` write, if all of them are digits.
pub open spec fn digits_value(s: Seq<char>) -> Option<int>
    decreases s.len(),
{
    if s.len() == 0 {
        Some(0)
    } else {
        match (digits_value(s.drop_last()), digit_value(s.last())) {
            (Some(h), Some(d)) => Some(10 * h + d),
            _ => None,
        }
    }
}

/// Whether `s` starts with a minus sign, and `s` without its sign.
pub open spec fn sign_split(s: Seq<char>) -> (bool, Seq<char>) {
    if s.len() > 0 && s[0] == '-' {
        (true, s.subrange(1, s.len() as int))
    } else if s.len() > 0 && s[0] == '+' {
        (false, s.subrange(1, s.len() as int))
    } else {
        (false, s)
    }
}

/// The integer that `s` writes: decimal digits, at least one, after an
/// optional sign. `None` where `s` is no such text or the integer is outside `isize`.
pub open spec fn integer_value(s: Seq<char>) -> Option<int> {
    let (neg, digits) = sign_split(s);
    if digits.len() == 0 {
        None
    } else {
        match digits_value(digits) {
            Some(v) => {
                let x = if neg {
                    -v
                } else {
                    v
                };
                if isize::MIN <= x <= isize::MAX {
                    Some(x)
                } else {
                    None
                }
            },
            None => None,
        }
    }
}

/// The fields of `s`: the parts between its `/` characters, of which there
/// is one more than there are `/` characters.
pub open spec fn split_fields(s: Seq<char>) -> Seq<Seq<char>>
    decreases s.len(),
{
    if s.len() == 0 {
        seq![Seq::<char>::empty()]
    } else {
        let prev = split_fields(s.drop_last());
        if s.last() == '/' {
            prev.push(Seq::<char>::empty())
        } else {
            prev.update(prev.len() - 1, prev.last().push(s.last()))
        }
    }
}

/// The face vertex `f` after field number `i`, with text `part`: field 0 is
/// the position, 1 the texture coordinate, 2 the normal; an empty field and
/// a field after the third change nothing. `None` where a field that is not
/// empty writes no integer.
pub open spec fn apply_field(f: FaceVertex, i: int, part: Seq<char>, c: ReaderContext) -> Option<
    FaceVertex,
> {
    if part.len() == 0 {
        Some(f)
    } else {
        match integer_value(part) {
            None => None,
            Some(v) => Some(
                if i == 0 {
                    FaceVertex { p: decode_spec(v, c.nvert as int) as usize, ..f }
                } else if i == 1 {
                    FaceVertex { t: Some(decode_spec(v, c.ntexc as int) as usize), ..f }
                } else if i == 2 {
                    FaceVertex { n: Some(decode_spec(v, c.nnorm as int) as usize), ..f }
                } else {
                    f
                },
            ),
        }
    }
}

/// The face vertex that the given fields write, in order.
pub open spec fn apply_fields(fields: Seq<Seq<char>>, c: ReaderContext) -> Option<FaceVertex>
    decreases fields.len(),
{
    if fields.len() == 0 {
        Some(FaceVertex { p: 0, t: None, n: None })
    } else {
        match apply_fields(fields.drop_last(), c) {
            None => None,
            Some(f) => apply_field(f, fields.len() - 1, fields.last(), c),
        }
    }
}

/// The face vertex that `s` writes: up to three integers separated by `/`,
/// each of which may be left out.
pub open spec fn face_vertex_spec(s: Seq<char>, c: ReaderContext) -> Option<FaceVertex> {
    apply_fields(split_fields(s), c)
}

/// Digits stay digits when more text follows: a text with a prefix that is
/// no number is no number.
pub proof fn lemma_digits_prefix(s: Seq<char>, k: int)
    requires
        0 <= k <= s.len(),
        digits_value(s.take(k)).is_none(),
    ensures
        digits_value(s).is_none(),
    decreases s.len(),
{
    if k < s.len() {
        assert(s.drop_last().take(k) == s.take(k));
        lemma_digits_prefix(s.drop_last(), k);
    } else {
        assert(s.take(k) == s);
    }
}

/// Reads the integer that `v` writes.
pub fn parse_integer(v: &Vec<char>) -> (r: Option<isize>)
    ensures
        r matches Some(x) ==> integer_value(v@) == Some(x as int),
        r.is_none() ==> integer_value(v@).is_none(),
{
    let n = v.len();
    let mut neg = false;
    let mut start: usize = 0;
    if n > 0 && v[0] == '-' {
        neg = true;
        start = 1;
    } else if n > 0 && v[0] == '+' {
        start = 1;
    }
    let ghost digits = v@.subrange(start as int, n as int);
    proof {
        if start == 0 {
            assert(digits == v@);
        }
        assert(sign_split(v@) == (neg, digits));
    }
    if start == n {
        return None;
    }
    let mut val: i128 = 0;
    let mut over = false;
    let mut k: usize = start;
    while k < n
        invariant
            start <= k <= n,
            start < n,
            n == v.len(),
            digits == v@.subrange(start as int, n as int),
            sign_split(v@) == (neg, digits),
            digits_value(digits.take(k - start)).is_some(),
            !over ==> val == digits_value(digits.take(k - start)).unwrap(),
            over ==> digits_value(digits.take(k - start)).unwrap() > 0x1_0000_0000_0000_0000,
            0 <= val <= 0x1_0000_0000_0000_0000,
        decreases n - k,
    {
        let c = v[k];
        let ghost t1 = digits.take(k + 1 - start);
        proof {
            assert(t1.drop_last() == digits.take(k - start));
            assert(t1.last() == c);
        }
        if !('0' <= c && c <= '9') {
            proof {
                lemma_digits_prefix(digits, k + 1 - start);
            }
            return None;
        }
        let d: i128 = (c as u32 - '0' as u32) as i128;
        if !over {
            val = val * 10 + d;
            if val > 0x1_0000_0000_0000_0000 {
                over = true;
                val = 0;
            }
        }
        k = k + 1;
    }
    proof {
        assert(digits.take(n - start) == digits);
    }
    if over {
        return None;
    }
    let x: i128 = if neg {
        -val
    } else {
        val
    };
    if x < isize::MIN as i128 || x > isize::MAX as i128 {
        None
    } else {
        Some(x as isize)
    }
}

/// Reads one face vertex: up to three indices separated by `/`, of which each
/// may be left out. `None` where a field that is not empty writes no integer.
pub fn parse_face_vertex(rctx: &ReaderContext, s: &str) -> (r: Option<FaceVertex>)
    ensures
        r == face_vertex_spec(s@, *rctx),
{
    let n = s.unicode_len();
    let mut f = FaceVertex { p: 0, t: None, n: None };
    let mut cur: Vec<char> = Vec::new();
    let mut i: usize = 0;
    let mut k: usize = 0;
    while k < n
        invariant
            0 <= k <= n,
            n == s@.len(),
            split_fields(s@.take(k as int)).len() == i + 1,
            i <= k,
            cur@ == split_fields(s@.take(k as int)).last(),
            apply_fields(split_fields(s@.take(k as int)).drop_last(), *rctx) == Some(f),
        decreases n - k,
    {
        let c = s.get_char(k);
        let ghost before = split_fields(s@.take(k as int));
        let ghost after = split_fields(s@.take(k + 1));
        proof {
            assert(s@.take(k + 1).drop_last() == s@.take(k as int));
            assert(s@.take(k + 1).last() == c);
        }
        if c == '/' {
            proof {
                assert(after == before.push(Seq::<char>::empty()));
                assert(after.drop_last() == before);
                assert(before.drop_last().push(before.last()) == before);
            }
            match apply_one(f, i, &cur, rctx) {
                None => {
                    proof {
                        lemma_fields_fail(s@, k + 1, *rctx);
                    }
                    return None;
                },
                Some(g) => {
                    f = g;
                },
            }
            cur = Vec::new();
            i = i + 1;
        } else {
            cur.push(c);
            proof {
                assert(after.drop_last() == before.drop_last());
            }
        }
        k = k + 1;
    }
    proof {
        assert(s@.take(n as int) == s@);
        let all = split_fields(s@);
        assert(all.drop_last().push(all.last()) == all);
    }
    apply_one(f, i, &cur, rctx)
}

fn apply_one(f: FaceVertex, i: usize, part: &Vec<char>, rctx: &ReaderContext) -> (r: Option<
    FaceVertex,
>)
    ensures
        r == apply_field(f, i as int, part@, *rctx),
{
    if part.len() == 0 {
        return Some(f);
    }
    match parse_integer(part) {
        None => None,
        Some(v) => {
            let mut g = f;
            if i == 0 {
                g.p = decode_index(v, rctx.nvert);
            } else if i == 1 {
                g.t = Some(decode_index(v, rctx.ntexc));
            } else if i == 2 {
                g.n = Some(decode_index(v, rctx.nnorm));
            }
            Some(g)
        },
    }
}

/// Where the fields of a prefix of `s` that ends a field write no face
/// vertex, neither do the fields of `s`.
pub proof fn lemma_fields_fail(s: Seq<char>, k: int, c: ReaderContext)
    requires
        0 <= k <= s.len(),
        apply_fields(split_fields(s.take(k)).drop_last(), c).is_none(),
    ensures
        apply_fields(split_fields(s), c).is_none(),
    decreases s.len() - k,
{
    if k < s.len() {
        let a = split_fields(s.take(k));
        let b = split_fields(s.take(k + 1));
        assert(s.take(k + 1).drop_last() == s.take(k));
        lemma_fields_nonempty(s.take(k));
        if s[k] == '/' {
            assert(b.drop_last() == a);
            assert(a.drop_last().push(a.last()) == a);
        } else {
            assert(b.drop_last() == a.drop_last());
        }
        lemma_fields_fail(s, k + 1, c);
    } else {
        assert(s.take(k) == s);
        let a = split_fields(s);
        lemma_fields_nonempty(s);
        assert(a.drop_last().push(a.last()) == a);
    }
}

/// A text has at least one field.
pub proof fn lemma_fields_nonempty(s: Seq<char>)
    ensures
        split_fields(s).len() >= 1,
    decreases s.len(),
{
    if s.len() > 0 {
        lemma_fields_nonempty(s.drop_last());
    }
}

/// Why a face record was not taken.
#[derive(Copy, Clone, Debug, PartialEq, Eq, Structural)]
pub enum FaceError {
    /// A vertex of the record is not written as indices.
    Malformed,
    /// An index of the record names no record read so far.
    OutOfRange,
    /// The importer cannot take more faces.
    TooMany,
}

/// The face vertices that the given texts write, or `None` where one of them writes none.
pub open spec fn corners_spec(args: Seq<String>, c: ReaderContext) -> Option<Seq<FaceVertex>>
    decreases args.len(),
{
    if args.len() == 0 {
        Some(Seq::<FaceVertex>::empty())
    } else {
        match (corners_spec(args.drop_last(), c), face_vertex_spec(args.last()@, c)) {
            (Some(vs), Some(v)) => Some(vs.push(v)),
            _ => None,
        }
    }
}

/// The triangles of a face with the given corners: a triangle as it is, a
/// quadrangle `v1 v2 v3 v4` as `v1 v2 v3` and `v3 v4 v1`, and nothing for any
/// other number of corners.
pub open spec fn triangles_spec(vs: Seq<FaceVertex>) -> Seq<Seq<FaceVertex>> {
    if vs.len() == 3 {
        seq![seq![vs[0], vs[1], vs[2]]]
    } else if vs.len() == 4 {
        seq![seq![vs[0], vs[1], vs[2]], seq![vs[2], vs[3], vs[0]]]
    } else {
        Seq::<Seq<FaceVertex>>::empty()
    }
}

/// The triangles that a face record with the given arguments adds.
pub open spec fn record_triangles(args: Seq<String>, c: ReaderContext) -> Seq<Seq<FaceVertex>> {
    if args.len() == 3 || args.len() == 4 {
        triangles_spec(corners_spec(args, c).unwrap())
    } else {
        Seq::<Seq<FaceVertex>>::empty()
    }
}

/// The given texts write as many corners as they are, where they write any.
pub proof fn lemma_corners_len(args: Seq<String>, c: ReaderContext)
    ensures
        corners_spec(args, c) matches Some(vs) ==> vs.len() == args.len(),
    decreases args.len(),
{
    if args.len() > 0 {
        lemma_corners_len(args.drop_last(), c);
    }
}

/// Every corner names records read so far.
pub open spec fn corners_refer(vs: Seq<FaceVertex>, c: ReaderContext) -> bool {
    forall|i: int|
        0 <= i < vs.len() ==> refers(#[trigger] vs[i], c.nvert as nat, c.ntexc as nat, c.nnorm as nat)
}

/// What becomes of a face record with the given arguments: the number of
/// triangles that it adds, one for three corners and two for four, none
/// for any other number of corners, or the reason why it is not taken.
pub open spec fn face_record_spec(args: Seq<String>, c: ReaderContext) -> Result<nat, FaceError> {
    if args.len() != 3 && args.len() != 4 {
        Ok(0)
    } else {
        match corners_spec(args, c) {
            None => Err(FaceError::Malformed),
            Some(vs) => if !corners_refer(vs, c) {
                Err(FaceError::OutOfRange)
            } else if c.ntri + (args.len() - 2) > MAX_FACES {
                Err(FaceError::TooMany)
            } else {
                Ok((args.len() - 2) as nat)
            },
        }
    }
}

fn corner_refers(v: &FaceVertex, c: &ReaderContext) -> (r: bool)
    ensures
        r == refers(*v, c.nvert as nat, c.ntexc as nat, c.nnorm as nat),
{
    let t = match v.t {
        Some(t) => t < c.ntexc,
        None => true,
    };
    let n = match v.n {
        Some(n) => n < c.nnorm,
        None => true,
    };
    v.p < c.nvert && t && n
}

/// Takes one face record with the given corners: a triangle is handed to
/// the importer as it is, a quadrangle `v1 v2 v3 v4` as the two triangles
/// `v1 v2 v3` and `v3 v4 v1`, and a record with another number of corners
/// is skipped.
pub fn read_face<I: Importer>(rctx: &mut ReaderContext, args: &Vec<String>, tgt: &mut I) -> (r:
    Result<usize, FaceError>)
    requires
        old(tgt).inv(),
        old(rctx).nvert == old(tgt).n_vertices(),
        old(rctx).ntexc == old(tgt).n_texcoords(),
        old(rctx).nnorm == old(tgt).n_normals(),
        old(rctx).ntri == old(tgt).faces().len(),
    ensures
        final(tgt).inv(),
        final(rctx).nvert == old(rctx).nvert,
        final(rctx).ntexc == old(rctx).ntexc,
        final(rctx).nnorm == old(rctx).nnorm,
        final(tgt).n_vertices() == old(tgt).n_vertices(),
        final(tgt).n_texcoords() == old(tgt).n_texcoords(),
        final(tgt).n_normals() == old(tgt).n_normals(),
        match face_record_spec(args@, *old(rctx)) {
            Ok(k) => r == Ok::<usize, FaceError>(k as usize) && final(rctx).ntri == old(rctx).ntri
                + k && final(tgt).faces() == old(tgt).faces() + record_triangles(
                args@,
                *old(rctx),
            ),
            Err(e) => r == Err::<usize, FaceError>(e) && final(rctx).ntri == old(rctx).ntri
                && final(tgt).faces() == old(tgt).faces(),
        },
{
    let n = args.len();
    if n != 3 && n != 4 {
        assert(tgt.faces() + Seq::<Seq<FaceVertex>>::empty() =~= tgt.faces());
        return Ok(0);
    }
    let mut vs: Vec<FaceVertex> = Vec::new();
    let mut i: usize = 0;
    while i < n
        invariant
            i <= n,
            n == args.len(),
            n == 3 || n == 4,
            vs.len() == i,
            *rctx == *old(rctx),
            *tgt == *old(tgt),
            tgt.inv(),
            corners_spec(args@.take(i as int), *rctx) == Some(vs@),
        decreases n - i,
    {
        proof {
            assert(args@.take(i + 1).drop_last() == args@.take(i as int));
        }
        match parse_face_vertex(rctx, args[i].as_str()) {
            Some(v) => {
                vs.push(v);
            },
            None => {
                proof {
                    lemma_corners_fail(args@, i + 1, *rctx);
                }
                return Err(FaceError::Malformed);
            },
        }
        i = i + 1;
    }
    assert(args@.take(n as int) == args@);
    let mut k: usize = 0;
    while k < n
        invariant
            k <= n,
            n == vs.len(),
            n == args.len(),
            n == 3 || n == 4,
            *rctx == *old(rctx),
            *tgt == *old(tgt),
            tgt.inv(),
            corners_spec(args@, *rctx) == Some(vs@),
            forall|q: int|
                0 <= q < k ==> refers(
                    #[trigger] vs[q],
                    rctx.nvert as nat,
                    rctx.ntexc as nat,
                    rctx.nnorm as nat,
                ),
        decreases n - k,
    {
        if !corner_refers(&vs[k], rctx) {
            return Err(FaceError::OutOfRange);
        }
        k = k + 1;
    }
    if rctx.ntri > MAX_FACES || n - 2 > MAX_FACES - rctx.ntri {
        return Err(FaceError::TooMany);
    }
    proof {
        lemma_corners_len(args@, *rctx);
    }
    if n == 3 {
        let t = [vs[0], vs[1], vs[2]];
        tgt.add_face(t);
        rctx.ntri = rctx.ntri + 1;
        proof {
            assert(t@ =~= seq![vs@[0], vs@[1], vs@[2]]);
            assert(old(tgt).faces().push(t@) =~= old(tgt).faces() + triangles_spec(vs@));
        }
        Ok(1)
    } else {
        let t = [vs[0], vs[1], vs[2]];
        let u = [vs[2], vs[3], vs[0]];
        tgt.add_face(t);
        tgt.add_face(u);
        rctx.ntri = rctx.ntri + 2;
        proof {
            assert(t@ =~= seq![vs@[0], vs@[1], vs@[2]]);
            assert(u@ =~= seq![vs@[2], vs@[3], vs@[0]]);
            assert(old(tgt).faces().push(t@).push(u@) =~= old(tgt).faces() + triangles_spec(
                vs@,
            ));
        }
        Ok(2)
    }
}

/// Where a prefix of the texts writes no corners, neither do all of them.
pub proof fn lemma_corners_fail(args: Seq<String>, k: int, c: ReaderContext)
    requires
        0 <= k <= args.len(),
        corners_spec(args.take(k), c).is_none(),
    ensures
        corners_spec(args, c).is_none(),
    decreases args.len() - k,
{
    if k < args.len() {
        assert(args.take(k + 1).drop_last() == args.take(k));
        lemma_corners_fail(args, k + 1, c);
    } else {
        assert(args.take(k) == args);
    }
}

/// The kinds of lines of a scene description.
#[derive(Copy, Clone, Debug, PartialEq, Eq, Structural)]
pub enum Directive {
    /// A line without fields.
    Empty,
    /// A vertex position record, `v`.
    Vertex,
    /// A texture coordinate record, `vt`.
    TexCoord,
    /// A vertex normal record, `vn`.
    Normal,
    /// A face record, `f`.
    Face,
    /// A directive that is passed over: `g`, `o`, `s`, `mtllib` or `usemtl`.
    Ignored,
    /// Any other directive.
    Unknown,
}

/// The part of a line before its comment: up to the first `#` or carriage return.
pub open spec fn content_spec(ln: Seq<char>) -> Seq<char>
    decreases ln.len(),
{
    if ln.len() == 0 || ln[0] == '#' || ln[0] == '\r' {
        Seq::<char>::empty()
    } else {
        seq![ln[0]] + content_spec(ln.skip(1))
    }
}

/// The parts of `s` between its spaces, empty parts included.
pub open spec fn words_spec(s: Seq<char>) -> Seq<Seq<char>>
    decreases s.len(),
{
    if s.len() == 0 {
        seq![Seq::<char>::empty()]
    } else {
        let prev = words_spec(s.drop_last());
        if s.last() == ' ' {
            prev.push(Seq::<char>::empty())
        } else {
            prev.update(prev.len() - 1, prev.last().push(s.last()))
        }
    }
}

/// The fields of a line: the parts between the spaces of its content that are not empty.
pub open spec fn fields_spec(ln: Seq<char>) -> Seq<Seq<char>> {
    words_spec(content_spec(ln)).filter(|w: Seq<char>| w.len() > 0)
}

/// The kind of a line with the given first field, if it has one.
pub open spec fn directive_spec(fields: Seq<Seq<char>>) -> Directive {
    if fields.len() == 0 {
        Directive::Empty
    } else if fields[0] == "v"@ {
        Directive::Vertex
    } else if fields[0] == "vt"@ {
        Directive::TexCoord
    } else if fields[0] == "vn"@ {
        Directive::Normal
    } else if fields[0] == "f"@ {
        Directive::Face
    } else if fields[0] == "g"@ || fields[0] == "o"@ || fields[0] == "s"@ || fields[0]
        == "mtllib"@ || fields[0] == "usemtl"@ {
        Directive::Ignored
    } else {
        Directive::Unknown
    }
}

/// The views of the given strings.
pub open spec fn texts(v: Seq<String>) -> Seq<Seq<char>> {
    Seq::new(v.len(), |i: int| v[i]@)
}

/// The fields of a line: what stands between its spaces, up to its comment.
pub fn fields(ln: &str) -> (r: Vec<String>)
    ensures
        texts(r@) == fields_spec(ln@),
{
    let n = ln.unicode_len();
    let mut out: Vec<String> = Vec::new();
    let mut cur = String::new();
    let mut cur_len: usize = 0;
    let mut k: usize = 0;
    let ghost pred = |w: Seq<char>| w.len() > 0;
    proof {
        assert(ln@.skip(0) =~= ln@);
        assert(ln@.take(0) + content_spec(ln@) =~= content_spec(ln@));
        assert(words_spec(ln@.take(0)) =~= seq![Seq::<char>::empty()]);
        assert(words_spec(ln@.take(0)).drop_last().filter(pred) =~= Seq::<Seq<char>>::empty()) by {
            reveal(Seq::filter);
        }
        assert(texts(out@) =~= Seq::<Seq<char>>::empty());
    }
    loop
        invariant
            0 <= k <= n,
            n == ln@.len(),
            pred == (|w: Seq<char>| w.len() > 0),
            forall|i: int| 0 <= i < k ==> ln@[i] != '#' && ln@[i] != '\r',
            content_spec(ln@) == ln@.take(k as int) + content_spec(ln@.skip(k as int)),
            cur@ == words_spec(ln@.take(k as int)).last(),
            cur_len == cur@.len(),
            cur_len <= k,
            words_spec(ln@.take(k as int)).len() >= 1,
            texts(out@) == words_spec(ln@.take(k as int)).drop_last().filter(pred),
        ensures
            content_spec(ln@) == ln@.take(k as int),
        decreases n - k,
    {
        if k == n {
            proof {
                assert(ln@.skip(k as int).len() == 0);
                assert(content_spec(ln@) =~= ln@.take(k as int));
            }
            break;
        }
        let c = ln.get_char(k);
        if c == '#' || c == '\r' {
            proof {
                assert(ln@.skip(k as int)[0] == c);
                assert(content_spec(ln@) =~= ln@.take(k as int));
            }
            break;
        }
        let ghost before = words_spec(ln@.take(k as int));
        let ghost after = words_spec(ln@.take(k + 1));
        proof {
            assert(ln@.take(k + 1).drop_last() == ln@.take(k as int));
            assert(ln@.take(k + 1).last() == c);
            assert(ln@.skip(k as int)[0] == c);
            assert(ln@.skip(k as int).skip(1) =~= ln@.skip(k + 1));
            assert(ln@.take(k as int) + (seq![c] + content_spec(ln@.skip(k + 1))) =~= ln@.take(
                k + 1,
            ) + content_spec(ln@.skip(k + 1)));
        }
        if c == ' ' {
            proof {
                assert(after.drop_last() == before);
                assert(before.drop_last().push(before.last()) == before);
                reveal(Seq::filter);
            }
            if cur_len > 0 {
                out.push(cur);
                proof {
                    assert(texts(out@) =~= before.filter(pred));
                }
            } else {
                proof {
                    assert(texts(out@) =~= before.filter(pred));
                }
            }
            cur = String::new();
            cur_len = 0;
        } else {
            cur.push(c);
            cur_len = cur_len + 1;
            proof {
                assert(after.drop_last() == before.drop_last());
            }
        }
        k = k + 1;
    }
    proof {
        let all = words_spec(ln@.take(k as int));
        assert(all.drop_last().push(all.last()) == all);
        assert(all == words_spec(content_spec(ln@)));
        reveal(Seq::filter);
    }
    if cur_len > 0 {
        out.push(cur);
        proof {
            assert(texts(out@) =~= fields_spec(ln@));
        }
    } else {
        proof {
            assert(texts(out@) =~= fields_spec(ln@));
        }
    }
    out
}

/// The kind of a line with the given fields.
pub fn directive(fields: &Vec<String>) -> (d: Directive)
    ensures
        d == directive_spec(texts(fields@)),
{
    if fields.len() == 0 {
        return Directive::Empty;
    }
    let f = &fields[0];
    assert(texts(fields@)[0] == f@);
    if *f == String::from_str("v") {
        Directive::Vertex
    } else if *f == String::from_str("vt") {
        Directive::TexCoord
    } else if *f == String::from_str("vn") {
        Directive::Normal
    } else if *f == String::from_str("f") {
        Directive::Face
    } else if *f == String::from_str("g") || *f == String::from_str("o") || *f == String::from_str(
        "s",
    ) || *f == String::from_str("mtllib") || *f == String::from_str("usemtl") {
        Directive::Ignored
    } else {
        Directive::Unknown
    }
}

} // verus!
