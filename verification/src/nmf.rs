//! The binary model codec and the geometric transforms.
//!
//! A model holds named objects and named submaterials.  Each object carries
//! position/normal/UV buffers and triangular faces indexing into them, and
//! optionally references one submaterial.  The byte format is little-endian
//! throughout: `u32` counts, names as a count followed by printable ASCII
//! bytes, and fixed-point coordinates as biased 64-bit words (the all-zero
//! word is reserved, so every stored coordinate can be negated).

use vstd::prelude::*;
use crate::fixp::{scale_fixed, abs1, lemma_scale_compose, scale_coord};
use crate::text::{text_eq, chars_of, range_text};

verus! {

/// A fixed-point 3D vector (position or normal).
#[derive(Clone, Copy, PartialEq, Eq, Structural, Debug)]
pub struct Vec3 {
    pub x: i64,
    pub y: i64,
    pub z: i64,
}

/// A fixed-point texture coordinate.
#[derive(Clone, Copy, PartialEq, Eq, Structural, Debug)]
pub struct UvCoord {
    pub u: i64,
    pub v: i64,
}

/// One face corner: indices into the position, normal and UV buffers.
#[derive(Clone, Copy, PartialEq, Eq, Structural, Debug)]
pub struct Corner {
    pub pos: u32,
    pub norm: u32,
    pub uv: u32,
}

/// One triangular face.
#[derive(Clone, Copy, PartialEq, Eq, Structural, Debug)]
pub struct Face {
    pub a: Corner,
    pub b: Corner,
    pub c: Corner,
}

/// A named material slot of the model.
pub struct SubMaterial {
    pub name: Vec<char>,
}

/// One named object with its geometry buffers.
pub struct Object {
    pub name: Vec<char>,
    pub submaterial_idx: Option<u32>,
    pub positions: Vec<Vec3>,
    pub normals: Vec<Vec3>,
    pub uvs: Vec<UvCoord>,
    pub faces: Vec<Face>,
}

/// A decoded model.
pub struct Nmf {
    pub objects: Vec<Object>,
    pub submaterials: Vec<SubMaterial>,
}

// ---------------------------------------------------------------------------
// well-formedness

/// Names are nonempty printable ASCII, short enough for a `u32` count.
pub open spec fn wf_name(s: Seq<char>) -> bool {
    &&& 1 <= s.len() <= 0xffff_ffff
    &&& forall|i: int| 0 <= i < s.len() ==> 32 <= ((#[trigger] s[i]) as u32) < 127
}

/// Every stored coordinate leaves the most negative word free, so negation
/// never overflows.
pub open spec fn wf_coord(c: i64) -> bool {
    c > i64::MIN
}

pub open spec fn wf_vec3(v: Vec3) -> bool {
    wf_coord(v.x) && wf_coord(v.y) && wf_coord(v.z)
}

pub open spec fn wf_uv(v: UvCoord) -> bool {
    wf_coord(v.u) && wf_coord(v.v)
}

pub open spec fn wf_object(o: Object) -> bool {
    &&& wf_name(o.name@)
    &&& o.positions@.len() <= 0xffff_ffff
    &&& o.normals@.len() <= 0xffff_ffff
    &&& o.uvs@.len() <= 0xffff_ffff
    &&& o.faces@.len() <= 0xffff_ffff
    &&& forall|i: int| 0 <= i < o.positions@.len() ==> wf_vec3(#[trigger] o.positions@[i])
    &&& forall|i: int| 0 <= i < o.normals@.len() ==> wf_vec3(#[trigger] o.normals@[i])
    &&& forall|i: int| 0 <= i < o.uvs@.len() ==> wf_uv(#[trigger] o.uvs@[i])
    &&& forall|i: int|
        0 <= i < o.faces@.len() ==> wf_face(#[trigger] o.faces@[i], o.positions@.len() as int,
            o.normals@.len() as int, o.uvs@.len() as int)
}

pub open spec fn wf_corner(c: Corner, np: int, nn: int, nu: int) -> bool {
    c.pos < np && c.norm < nn && c.uv < nu
}

pub open spec fn wf_face(f: Face, np: int, nn: int, nu: int) -> bool {
    wf_corner(f.a, np, nn, nu) && wf_corner(f.b, np, nn, nu) && wf_corner(f.c, np, nn, nu)
}

pub open spec fn wf_nmf(m: Nmf) -> bool {
    &&& m.objects@.len() <= 0xffff_ffff
    &&& m.submaterials@.len() <= 0xffff_ffff
    &&& forall|i: int| 0 <= i < m.objects@.len() ==> wf_object(#[trigger] m.objects@[i])
    &&& forall|i: int|
        0 <= i < m.submaterials@.len() ==> wf_name((#[trigger] m.submaterials@[i]).name@)
    &&& forall|i: int|
        0 <= i < m.objects@.len() ==> match (#[trigger] m.objects@[i]).submaterial_idx {
            Option::Some(s) => (s as int) < m.submaterials@.len(),
            Option::None => true,
        }
}

// ---------------------------------------------------------------------------
// byte format

#[verifier::opaque]
pub open spec fn le4(n: int) -> Seq<u8> {
    seq![
        (n % 256) as u8,
        ((n / 256) % 256) as u8,
        (((n / 256) / 256) % 256) as u8,
        ((((n / 256) / 256) / 256) % 256) as u8,
    ]
}

#[verifier::opaque]
pub open spec fn le8(n: int) -> Seq<u8> {
    le4(n % 0x1_0000_0000) + le4(n / 0x1_0000_0000)
}

/// The four little-endian bytes of a 32-bit value.
pub proof fn lemma_le4_bytes(b0: u8, b1: u8, b2: u8, b3: u8)
    ensures
        le4(b0 + 256 * (b1 as int) + 65536 * (b2 as int) + 16777216 * (b3 as int)) == seq![
            b0,
            b1,
            b2,
            b3,
        ],
{
    reveal(le4);
    let n = b0 + 256 * (b1 as int) + 65536 * (b2 as int) + 16777216 * (b3 as int);
    let q1 = b1 + 256 * (b2 as int) + 65536 * (b3 as int);
    let q2 = b2 + 256 * (b3 as int);
    vstd::arithmetic::div_mod::lemma_fundamental_div_mod_converse(n, 256, q1, b0 as int);
    vstd::arithmetic::div_mod::lemma_fundamental_div_mod_converse(q1, 256, q2, b1 as int);
    vstd::arithmetic::div_mod::lemma_fundamental_div_mod_converse(q2, 256, b3 as int, b2 as int);
    vstd::arithmetic::div_mod::lemma_small_mod(b3 as nat, 256);
    assert(le4(n) =~= seq![b0, b1, b2, b3]);
}

/// A 64-bit value splits into two 32-bit halves.
pub proof fn lemma_le8_split(lo: int, hi: int)
    requires
        0 <= lo < 0x1_0000_0000,
        0 <= hi < 0x1_0000_0000,
    ensures
        le8(lo + 0x1_0000_0000 * hi) == le4(lo) + le4(hi),
{
    reveal(le8);
    let n = lo + 0x1_0000_0000 * hi;
    vstd::arithmetic::div_mod::lemma_fundamental_div_mod_converse(n, 0x1_0000_0000, hi, lo);
}

/// A coordinate as a biased unsigned 64-bit word.
pub open spec fn coord_bytes(c: i64) -> Seq<u8> {
    le8(c + 0x8000_0000_0000_0000)
}

pub open spec fn chars_bytes(s: Seq<char>) -> Seq<u8> {
    Seq::new(s.len(), |i: int| (s[i] as u8))
}

pub open spec fn name_bytes(s: Seq<char>) -> Seq<u8> {
    le4(s.len() as int) + chars_bytes(s)
}

pub open spec fn vec3_bytes(v: Vec3) -> Seq<u8> {
    coord_bytes(v.x) + coord_bytes(v.y) + coord_bytes(v.z)
}

pub open spec fn uv_bytes(v: UvCoord) -> Seq<u8> {
    coord_bytes(v.u) + coord_bytes(v.v)
}

pub open spec fn corner_bytes(c: Corner) -> Seq<u8> {
    le4(c.pos as int) + le4(c.norm as int) + le4(c.uv as int)
}

pub open spec fn face_bytes(f: Face) -> Seq<u8> {
    corner_bytes(f.a) + corner_bytes(f.b) + corner_bytes(f.c)
}

/// An absent submaterial reference is stored as the all-ones word.
pub open spec fn smidx_bytes(s: Option<u32>) -> Seq<u8> {
    match s {
        Option::Some(i) => le4(i as int),
        Option::None => le4(0xffff_ffff),
    }
}

pub open spec fn cat_vec3(s: Seq<Vec3>) -> Seq<u8>
    decreases s.len(),
{
    if s.len() == 0 {
        Seq::empty()
    } else {
        vec3_bytes(s[0]) + cat_vec3(s.skip(1))
    }
}

pub open spec fn cat_uv(s: Seq<UvCoord>) -> Seq<u8>
    decreases s.len(),
{
    if s.len() == 0 {
        Seq::empty()
    } else {
        uv_bytes(s[0]) + cat_uv(s.skip(1))
    }
}

pub open spec fn cat_face(s: Seq<Face>) -> Seq<u8>
    decreases s.len(),
{
    if s.len() == 0 {
        Seq::empty()
    } else {
        face_bytes(s[0]) + cat_face(s.skip(1))
    }
}

pub open spec fn cat_submaterial(s: Seq<SubMaterial>) -> Seq<u8>
    decreases s.len(),
{
    if s.len() == 0 {
        Seq::empty()
    } else {
        name_bytes(s[0].name@) + cat_submaterial(s.skip(1))
    }
}

pub open spec fn object_bytes(o: Object) -> Seq<u8> {
    name_bytes(o.name@) + smidx_bytes(o.submaterial_idx) + le4(o.positions@.len() as int)
        + cat_vec3(o.positions@) + le4(o.normals@.len() as int) + cat_vec3(o.normals@) + le4(
        o.uvs@.len() as int,
    ) + cat_uv(o.uvs@) + le4(o.faces@.len() as int) + cat_face(o.faces@)
}

pub open spec fn cat_object(s: Seq<Object>) -> Seq<u8>
    decreases s.len(),
{
    if s.len() == 0 {
        Seq::empty()
    } else {
        object_bytes(s[0]) + cat_object(s.skip(1))
    }
}

/// The whole encoded model: the submaterial table, then the object table.
pub open spec fn nmf_bytes(m: Nmf) -> Seq<u8> {
    le4(m.submaterials@.len() as int) + cat_submaterial(m.submaterials@) + le4(
        m.objects@.len() as int,
    ) + cat_object(m.objects@)
}

proof fn lemma_cat_vec3_push(s: Seq<Vec3>, v: Vec3)
    ensures
        cat_vec3(s.push(v)) == cat_vec3(s) + vec3_bytes(v),
    decreases s.len(),
{
    if s.len() == 0 {
        assert(s.push(v).skip(1) =~= Seq::<Vec3>::empty());
        assert(s.push(v)[0] == v);
        assert(cat_vec3(Seq::<Vec3>::empty()) == Seq::<u8>::empty());
        assert(cat_vec3(s.push(v)) == vec3_bytes(v) + Seq::<u8>::empty());
        assert(vec3_bytes(v) + Seq::<u8>::empty() =~= Seq::<u8>::empty() + vec3_bytes(v));
    } else {
        assert(s.push(v).skip(1) =~= s.skip(1).push(v));
        assert(s.push(v)[0] == s[0]);
        lemma_cat_vec3_push(s.skip(1), v);
        assert(cat_vec3(s.push(v)) == vec3_bytes(s[0]) + (cat_vec3(s.skip(1)) + vec3_bytes(v)));
        assert(vec3_bytes(s[0]) + (cat_vec3(s.skip(1)) + vec3_bytes(v)) =~= (vec3_bytes(s[0]) + cat_vec3(
            s.skip(1),
        )) + vec3_bytes(v));
    }
}

proof fn lemma_cat_uv_push(s: Seq<UvCoord>, v: UvCoord)
    ensures
        cat_uv(s.push(v)) == cat_uv(s) + uv_bytes(v),
    decreases s.len(),
{
    if s.len() == 0 {
        assert(s.push(v).skip(1) =~= Seq::<UvCoord>::empty());
        assert(s.push(v)[0] == v);
        assert(cat_uv(Seq::<UvCoord>::empty()) == Seq::<u8>::empty());
        assert(cat_uv(s.push(v)) == uv_bytes(v) + Seq::<u8>::empty());
        assert(uv_bytes(v) + Seq::<u8>::empty() =~= Seq::<u8>::empty() + uv_bytes(v));
    } else {
        assert(s.push(v).skip(1) =~= s.skip(1).push(v));
        assert(s.push(v)[0] == s[0]);
        lemma_cat_uv_push(s.skip(1), v);
        assert(cat_uv(s.push(v)) == uv_bytes(s[0]) + (cat_uv(s.skip(1)) + uv_bytes(v)));
        assert(uv_bytes(s[0]) + (cat_uv(s.skip(1)) + uv_bytes(v)) =~= (uv_bytes(s[0]) + cat_uv(
            s.skip(1),
        )) + uv_bytes(v));
    }
}

proof fn lemma_cat_face_push(s: Seq<Face>, v: Face)
    ensures
        cat_face(s.push(v)) == cat_face(s) + face_bytes(v),
    decreases s.len(),
{
    if s.len() == 0 {
        assert(s.push(v).skip(1) =~= Seq::<Face>::empty());
        assert(s.push(v)[0] == v);
        assert(cat_face(Seq::<Face>::empty()) == Seq::<u8>::empty());
        assert(cat_face(s.push(v)) == face_bytes(v) + Seq::<u8>::empty());
        assert(face_bytes(v) + Seq::<u8>::empty() =~= Seq::<u8>::empty() + face_bytes(v));
    } else {
        assert(s.push(v).skip(1) =~= s.skip(1).push(v));
        assert(s.push(v)[0] == s[0]);
        lemma_cat_face_push(s.skip(1), v);
        assert(cat_face(s.push(v)) == face_bytes(s[0]) + (cat_face(s.skip(1)) + face_bytes(v)));
        assert(face_bytes(s[0]) + (cat_face(s.skip(1)) + face_bytes(v)) =~= (face_bytes(s[0]) + cat_face(
            s.skip(1),
        )) + face_bytes(v));
    }
}

proof fn lemma_cat_submaterial_push(s: Seq<SubMaterial>, v: SubMaterial)
    ensures
        cat_submaterial(s.push(v)) == cat_submaterial(s) + name_bytes(v.name@),
    decreases s.len(),
{
    if s.len() == 0 {
        assert(s.push(v).skip(1) =~= Seq::<SubMaterial>::empty());
        assert(s.push(v)[0] == v);
        assert(cat_submaterial(Seq::<SubMaterial>::empty()) == Seq::<u8>::empty());
        assert(cat_submaterial(s.push(v)) == name_bytes(v.name@) + Seq::<u8>::empty());
        assert(name_bytes(v.name@) + Seq::<u8>::empty() =~= Seq::<u8>::empty() + name_bytes(
            v.name@,
        ));
    } else {
        assert(s.push(v).skip(1) =~= s.skip(1).push(v));
        assert(s.push(v)[0] == s[0]);
        lemma_cat_submaterial_push(s.skip(1), v);
        assert(cat_submaterial(s.push(v)) == name_bytes(s[0].name@) + (cat_submaterial(s.skip(1))
            + name_bytes(v.name@)));
        assert(name_bytes(s[0].name@) + (cat_submaterial(s.skip(1)) + name_bytes(v.name@)) =~= (
        name_bytes(s[0].name@) + cat_submaterial(s.skip(1))) + name_bytes(v.name@));
    }
}

proof fn lemma_cat_object_push(s: Seq<Object>, v: Object)
    ensures
        cat_object(s.push(v)) == cat_object(s) + object_bytes(v),
    decreases s.len(),
{
    if s.len() == 0 {
        assert(s.push(v).skip(1) =~= Seq::<Object>::empty());
        assert(s.push(v)[0] == v);
        assert(cat_object(Seq::<Object>::empty()) == Seq::<u8>::empty());
        assert(cat_object(s.push(v)) == object_bytes(v) + Seq::<u8>::empty());
        assert(object_bytes(v) + Seq::<u8>::empty() =~= Seq::<u8>::empty() + object_bytes(v));
    } else {
        assert(s.push(v).skip(1) =~= s.skip(1).push(v));
        assert(s.push(v)[0] == s[0]);
        lemma_cat_object_push(s.skip(1), v);
        assert(cat_object(s.push(v)) == object_bytes(s[0]) + (cat_object(s.skip(1))
            + object_bytes(v)));
        assert(object_bytes(s[0]) + (cat_object(s.skip(1)) + object_bytes(v)) =~= (object_bytes(
            s[0],
        ) + cat_object(s.skip(1))) + object_bytes(v));
    }
}


// ---------------------------------------------------------------------------
// the byte format as a deterministic specification-level decoder

/// Specification-level counterpart of [`Object`].
pub struct ObjectS {
    pub name: Seq<char>,
    pub submaterial_idx: Option<u32>,
    pub positions: Seq<Vec3>,
    pub normals: Seq<Vec3>,
    pub uvs: Seq<UvCoord>,
    pub faces: Seq<Face>,
}

/// Specification-level counterpart of [`Nmf`].
pub struct NmfS {
    pub objects: Seq<ObjectS>,
    pub submaterials: Seq<Seq<char>>,
}

impl View for Object {
    type V = ObjectS;

    open spec fn view(&self) -> ObjectS {
        ObjectS {
            name: self.name@,
            submaterial_idx: self.submaterial_idx,
            positions: self.positions@,
            normals: self.normals@,
            uvs: self.uvs@,
            faces: self.faces@,
        }
    }
}

impl View for Nmf {
    type V = NmfS;

    open spec fn view(&self) -> NmfS {
        NmfS {
            objects: self.objects@.map_values(|o: Object| o@),
            submaterials: self.submaterials@.map_values(|sm: SubMaterial| sm.name@),
        }
    }
}

pub open spec fn take_u32(b: Seq<u8>, p: int) -> Option<(u32, int)> {
    if 0 <= p && p + 4 <= b.len() {
        Option::Some(
            (
                ((b[p] as int) + 256 * (b[p + 1] as int) + 65536 * (b[p + 2] as int) + 16777216
                    * (b[p + 3] as int)) as u32,
                p + 4,
            ),
        )
    } else {
        Option::None
    }
}

pub open spec fn take_coord(b: Seq<u8>, p: int) -> Option<(i64, int)> {
    match take_u32(b, p) {
        Option::None => Option::None,
        Option::Some((lo, p1)) => match take_u32(b, p1) {
            Option::None => Option::None,
            Option::Some((hi, p2)) => {
                let w = (lo as int) + 0x1_0000_0000 * (hi as int);
                if w == 0 {
                    Option::None
                } else {
                    Option::Some(((w - 0x8000_0000_0000_0000) as i64, p2))
                }
            },
        },
    }
}

pub open spec fn take_name(b: Seq<u8>, p: int) -> Option<(Seq<char>, int)> {
    match take_u32(b, p) {
        Option::None => Option::None,
        Option::Some((n, p1)) => {
            if n == 0 {
                Option::None
            } else if p1 + n <= b.len() && (forall|j: int|
                0 <= j < n ==> 32 <= (#[trigger] b[p1 + j]) < 127) {
                Option::Some((Seq::new(n as nat, |j: int| b[p1 + j] as char), p1 + n))
            } else {
                Option::None
            }
        },
    }
}

#[verifier::opaque]
pub open spec fn take_vec3s(b: Seq<u8>, p: int, count: int) -> Option<(Seq<Vec3>, int)>
    decreases count when count >= 0
{
    if count == 0 {
        Option::Some((Seq::empty(), p))
    } else {
        match take_coord(b, p) {
            Option::None => Option::None,
            Option::Some((x, p1)) => match take_coord(b, p1) {
                Option::None => Option::None,
                Option::Some((y, p2)) => match take_coord(b, p2) {
                    Option::None => Option::None,
                    Option::Some((z, p3)) => match take_vec3s(b, p3, count - 1) {
                        Option::None => Option::None,
                        Option::Some((rest, end)) => Option::Some(
                            (seq![Vec3 { x, y, z }] + rest, end),
                        ),
                    },
                },
            },
        }
    }
}

#[verifier::opaque]
pub open spec fn take_uvs(b: Seq<u8>, p: int, count: int) -> Option<(Seq<UvCoord>, int)>
    decreases count when count >= 0
{
    if count == 0 {
        Option::Some((Seq::empty(), p))
    } else {
        match take_coord(b, p) {
            Option::None => Option::None,
            Option::Some((u, p1)) => match take_coord(b, p1) {
                Option::None => Option::None,
                Option::Some((v, p2)) => match take_uvs(b, p2, count - 1) {
                    Option::None => Option::None,
                    Option::Some((rest, end)) => Option::Some(
                        (seq![UvCoord { u, v }] + rest, end),
                    ),
                },
            },
        }
    }
}

pub open spec fn take_corner(b: Seq<u8>, p: int, np: int, nn: int, nu: int) -> Option<
    (Corner, int),
> {
    match take_u32(b, p) {
        Option::None => Option::None,
        Option::Some((a, p1)) => match take_u32(b, p1) {
            Option::None => Option::None,
            Option::Some((n2, p2)) => match take_u32(b, p2) {
                Option::None => Option::None,
                Option::Some((c, p3)) => {
                    if a < np && n2 < nn && c < nu {
                        Option::Some((Corner { pos: a, norm: n2, uv: c }, p3))
                    } else {
                        Option::None
                    }
                },
            },
        },
    }
}

pub open spec fn take_face(b: Seq<u8>, p: int, np: int, nn: int, nu: int) -> Option<
    (Face, int),
> {
    match take_corner(b, p, np, nn, nu) {
        Option::None => Option::None,
        Option::Some((a, p1)) => match take_corner(b, p1, np, nn, nu) {
            Option::None => Option::None,
            Option::Some((bb, p2)) => match take_corner(b, p2, np, nn, nu) {
                Option::None => Option::None,
                Option::Some((c, p3)) => Option::Some((Face { a, b: bb, c }, p3)),
            },
        },
    }
}

#[verifier::opaque]
pub open spec fn take_faces(b: Seq<u8>, p: int, count: int, np: int, nn: int, nu: int) -> Option<
    (Seq<Face>, int),
>
    decreases count when count >= 0
{
    if count == 0 {
        Option::Some((Seq::empty(), p))
    } else {
        match take_face(b, p, np, nn, nu) {
            Option::None => Option::None,
            Option::Some((f, p1)) => match take_faces(b, p1, count - 1, np, nn, nu) {
                Option::None => Option::None,
                Option::Some((rest, end)) => Option::Some((seq![f] + rest, end)),
            },
        }
    }
}

#[verifier::opaque]
pub open spec fn take_object(b: Seq<u8>, p: int, nsub: int) -> Option<(ObjectS, int)> {
    match take_name(b, p) {
        Option::None => Option::None,
        Option::Some((name, p1)) => match take_u32(b, p1) {
            Option::None => Option::None,
            Option::Some((smraw, p2)) => {
                let smidx: Option<u32> = if smraw == 0xffff_ffffu32 {
                    Option::None
                } else {
                    Option::Some(smraw)
                };
                if smraw != 0xffff_ffffu32 && (smraw as int) >= nsub {
                    Option::None
                } else {
                    match take_u32(b, p2) {
                        Option::None => Option::None,
                        Option::Some((npos, p3)) => match take_vec3s(b, p3, npos as int) {
                            Option::None => Option::None,
                            Option::Some((positions, p4)) => match take_u32(b, p4) {
                                Option::None => Option::None,
                                Option::Some((nnorm, p5)) => match take_vec3s(
                                    b,
                                    p5,
                                    nnorm as int,
                                ) {
                                    Option::None => Option::None,
                                    Option::Some((normals, p6)) => match take_u32(b, p6) {
                                        Option::None => Option::None,
                                        Option::Some((nuv, p7)) => match take_uvs(
                                            b,
                                            p7,
                                            nuv as int,
                                        ) {
                                            Option::None => Option::None,
                                            Option::Some((uvs, p8)) => match take_u32(b, p8) {
                                                Option::None => Option::None,
                                                Option::Some((nface, p9)) => match take_faces(
                                                    b,
                                                    p9,
                                                    nface as int,
                                                    npos as int,
                                                    nnorm as int,
                                                    nuv as int,
                                                ) {
                                                    Option::None => Option::None,
                                                    Option::Some((faces, p10)) => Option::Some(
                                                        (
                                                            ObjectS {
                                                                name,
                                                                submaterial_idx: smidx,
                                                                positions,
                                                                normals,
                                                                uvs,
                                                                faces,
                                                            },
                                                            p10,
                                                        ),
                                                    ),
                                                },
                                            },
                                        },
                                    },
                                },
                            },
                        },
                    }
                }
            },
        },
    }
}

#[verifier::opaque]
pub open spec fn take_submaterials(b: Seq<u8>, p: int, count: int) -> Option<
    (Seq<Seq<char>>, int),
>
    decreases count when count >= 0
{
    if count == 0 {
        Option::Some((Seq::empty(), p))
    } else {
        match take_name(b, p) {
            Option::None => Option::None,
            Option::Some((name, p1)) => match take_submaterials(b, p1, count - 1) {
                Option::None => Option::None,
                Option::Some((rest, end)) => Option::Some((seq![name] + rest, end)),
            },
        }
    }
}

#[verifier::opaque]
pub open spec fn take_objects(b: Seq<u8>, p: int, count: int, nsub: int) -> Option<
    (Seq<ObjectS>, int),
>
    decreases count when count >= 0
{
    if count == 0 {
        Option::Some((Seq::empty(), p))
    } else {
        match take_object(b, p, nsub) {
            Option::None => Option::None,
            Option::Some((o, p1)) => match take_objects(b, p1, count - 1, nsub) {
                Option::None => Option::None,
                Option::Some((rest, end)) => Option::Some((seq![o] + rest, end)),
            },
        }
    }
}

/// What, if anything, the front of `b` decodes to, and how many bytes the
/// decoding consumes.  This is deterministic: the executable decoder is
/// proved to return exactly this.
pub open spec fn decode_spec(b: Seq<u8>) -> Option<(NmfS, int)> {
    match take_u32(b, 0) {
        Option::None => Option::None,
        Option::Some((nsub, p1)) => match take_submaterials(b, p1, nsub as int) {
            Option::None => Option::None,
            Option::Some((submaterials, p2)) => match take_u32(b, p2) {
                Option::None => Option::None,
                Option::Some((nobj, p3)) => match take_objects(b, p3, nobj as int, nsub as int) {
                    Option::None => Option::None,
                    Option::Some((objects, p4)) => Option::Some(
                        (NmfS { objects, submaterials }, p4),
                    ),
                },
            },
        },
    }
}

// ---------------------------------------------------------------------------
// decoding

/// Why a byte buffer was rejected.
#[derive(Clone, Copy, PartialEq, Eq, Structural, Debug)]
pub enum NmfError {
    Truncated,
    BadName,
    BadCoordinate,
    BadIndex,
}

fn read_u32(bytes: &Vec<u8>, p: usize) -> (r: Option<(u32, usize)>)
    ensures
        match r {
            Option::Some((v, q)) => q == p + 4 && q <= bytes@.len() && le4(v as int)
                == bytes@.subrange(p as int, p as int + 4) && take_u32(bytes@, p as int)
                == Option::Some((v, q as int)),
            Option::None => p + 4 > bytes@.len() && take_u32(bytes@, p as int) is None,
        },
{
    if p > bytes.len() || bytes.len() - p < 4 {
        return None;
    }
    let b0 = bytes[p] as u32;
    let b1 = bytes[p + 1] as u32;
    let b2 = bytes[p + 2] as u32;
    let b3 = bytes[p + 3] as u32;
    let v = b0 + 256 * b1 + 65536 * b2 + 16777216 * b3;
    proof {
        lemma_le4_bytes(bytes@[p as int], bytes@[p as int + 1], bytes@[p as int + 2],
            bytes@[p as int + 3]);
        assert(le4(v as int) =~= bytes@.subrange(p as int, p as int + 4));
    }
    Some((v, p + 4))
}

fn read_coord(bytes: &Vec<u8>, p: usize) -> (r: Result<(i64, usize), NmfError>)
    ensures
        match r {
            Result::Ok((c, q)) => q == p + 8 && q <= bytes@.len() && wf_coord(c) && coord_bytes(c)
                == bytes@.subrange(p as int, p as int + 8) && take_coord(bytes@, p as int)
                == Option::Some((c, q as int)),
            Result::Err(e) => take_coord(bytes@, p as int) is None && (e == NmfError::Truncated
                || e == NmfError::BadCoordinate),
        },
{
    let (lo, p1) = match read_u32(bytes, p) {
        Option::Some(v) => v,
        Option::None => {
            return Err(NmfError::Truncated);
        },
    };
    let (hi, p2) = match read_u32(bytes, p1) {
        Option::Some(v) => v,
        Option::None => {
            return Err(NmfError::Truncated);
        },
    };
    let w: u64 = (lo as u64) + 0x1_0000_0000u64 * (hi as u64);
    if w == 0 {
        return Err(NmfError::BadCoordinate);
    }
    let c: i64 = if w >= 0x8000_0000_0000_0000u64 {
        (w - 0x8000_0000_0000_0000u64) as i64
    } else {
        -((0x8000_0000_0000_0000u64 - w) as i64)
    };
    proof {
        assert(c as int + 0x8000_0000_0000_0000 == w as int);
        lemma_le8_split(lo as int, hi as int);
        assert(coord_bytes(c) =~= bytes@.subrange(p as int, p as int + 8));
        assert(take_coord(bytes@, p as int) == Option::Some((c, p as int + 8)));
    }
    Ok((c, p + 8))
}

fn read_name(bytes: &Vec<u8>, p: usize) -> (r: Result<(Vec<char>, usize), NmfError>)
    ensures
        match r {
            Result::Ok((s, q)) => p <= q <= bytes@.len() && wf_name(s@) && name_bytes(s@)
                == bytes@.subrange(p as int, q as int) && take_name(bytes@, p as int)
                == Option::Some((s@, q as int)),
            Result::Err(e) => take_name(bytes@, p as int) is None && (e == NmfError::Truncated
                || e == NmfError::BadName),
        },
{
    let (n, p1) = match read_u32(bytes, p) {
        Option::Some(v) => v,
        Option::None => {
            return Err(NmfError::Truncated);
        },
    };
    if n == 0 {
        return Err(NmfError::BadName);
    }
    if bytes.len() - p1 < n as usize {
        return Err(NmfError::Truncated);
    }
    let n = n as usize;
    let blen = bytes.len();
    let mut s: Vec<char> = Vec::new();
    let mut i: usize = 0;
    while i < n
        invariant
            i <= n,
            p1 + n <= blen == bytes@.len(),
            1 <= n <= 0xffff_ffff,
            take_u32(bytes@, p as int) == Option::Some(((n as u32), p1 as int)),
            s@.len() == i,
            forall|j: int| 0 <= j < i ==> 32 <= ((#[trigger] s@[j]) as u32) < 127,
            forall|j: int| 0 <= j < i ==> (s@[j] as u8) == bytes@[p1 + j],
            forall|j: int| 0 <= j < i ==> 32 <= (#[trigger] bytes@[p1 + j]) < 127,
            forall|j: int| 0 <= j < i ==> #[trigger] s@[j] == (bytes@[p1 + j] as char),
        decreases n - i,
    {
        let b = bytes[p1 + i];
        if b < 32 || b >= 127 {
            proof {
                let (nsp, p1sp) = take_u32(bytes@, p as int)->Some_0;
                assert(p1sp == p1 as int && nsp as int == n as int);
                assert(!(forall|j: int|
                    0 <= j < nsp ==> 32 <= (#[trigger] bytes@[p1sp + j]) < 127)) by {
                    assert(!(32 <= bytes@[p1sp + i as int] < 127));
                    assert(0 <= (i as int) && (i as int) < (nsp as int));
                }
                assert(take_name(bytes@, p as int) is None);
            }
            return Err(NmfError::BadName);
        }
        s.push(b as char);
        i += 1;
    }
    proof {
        assert(chars_bytes(s@) =~= bytes@.subrange(p1 as int, p1 as int + n as int));
        assert(name_bytes(s@) =~= bytes@.subrange(p as int, p1 as int + n as int));
        assert(s@ =~= Seq::new(n as nat, |j: int| bytes@[p1 + j] as char));
        assert(take_name(bytes@, p as int) == Option::Some((s@, p1 as int + n as int)));
    }
    Ok((s, p1 + n))
}

fn read_vec3s(bytes: &Vec<u8>, p: usize, count: u32) -> (r: Result<(Vec<Vec3>, usize), NmfError>)
    requires
        p <= bytes@.len(),
    ensures
        match r {
            Result::Ok((v, q)) => p <= q <= bytes@.len() && v@.len() == count && cat_vec3(v@)
                == bytes@.subrange(p as int, q as int) && (forall|i: int|
                0 <= i < v@.len() ==> wf_vec3(#[trigger] v@[i])) && take_vec3s(
                bytes@,
                p as int,
                count as int,
            ) == Option::Some((v@, q as int)),
            Result::Err(e) => take_vec3s(bytes@, p as int, count as int) is None && (e
                == NmfError::Truncated || e == NmfError::BadCoordinate),
        },
{
    let mut v: Vec<Vec3> = Vec::new();
    let mut q: usize = p;
    let mut i: u32 = 0;
    proof {
        reveal_with_fuel(take_vec3s, 2);
        assert(cat_vec3(v@) =~= bytes@.subrange(p as int, p as int));
        match take_vec3s(bytes@, p as int, count as int) {
            Option::Some((rest, end)) => {
                assert(v@ + rest =~= rest);
            },
            Option::None => {},
        }
    }
    while i < count
        invariant
            i <= count,
            p <= q <= bytes@.len(),
            v@.len() == i,
            cat_vec3(v@) == bytes@.subrange(p as int, q as int),
            forall|j: int| 0 <= j < v@.len() ==> wf_vec3(#[trigger] v@[j]),
            (match take_vec3s(bytes@, q as int, (count - i) as int) {
                Option::Some((rest, end)) => take_vec3s(bytes@, p as int, count as int)
                    == Option::Some((v@ + rest, end)),
                Option::None => take_vec3s(bytes@, p as int, count as int) is None,
            }),
        decreases count - i,
    {
        let (x, q1) = match read_coord(bytes, q) {
            Result::Ok(v) => v,
            Result::Err(e) => {
                proof {
                    reveal_with_fuel(take_vec3s, 2);
                    assert(take_vec3s(bytes@, q as int, (count - i) as int) is None);
                }
                return Err(e);
            },
        };
        let (y, q2) = match read_coord(bytes, q1) {
            Result::Ok(v) => v,
            Result::Err(e) => {
                proof {
                    reveal_with_fuel(take_vec3s, 2);
                    assert(take_vec3s(bytes@, q as int, (count - i) as int) is None);
                }
                return Err(e);
            },
        };
        let (z, q3) = match read_coord(bytes, q2) {
            Result::Ok(v) => v,
            Result::Err(e) => {
                proof {
                    reveal_with_fuel(take_vec3s, 2);
                    assert(take_vec3s(bytes@, q as int, (count - i) as int) is None);
                }
                return Err(e);
            },
        };
        let w = Vec3 { x, y, z };
        proof {
            reveal_with_fuel(take_vec3s, 2);
            lemma_cat_vec3_push(v@, w);
            assert(vec3_bytes(w) =~= bytes@.subrange(q as int, q3 as int));
            assert(cat_vec3(v@) + vec3_bytes(w) =~= bytes@.subrange(p as int, q3 as int));
            match take_vec3s(bytes@, q3 as int, (count - i - 1) as int) {
                Option::Some((r2, e2)) => {
                    assert(take_vec3s(bytes@, q as int, (count - i) as int) == Option::Some(
                        (seq![w] + r2, e2),
                    ));
                    assert(v@ + (seq![w] + r2) =~= v@.push(w) + r2);
                },
                Option::None => {
                    assert(take_vec3s(bytes@, q as int, (count - i) as int) is None);
                },
            }
        }
        v.push(w);
        q = q3;
        i += 1;
    }
    proof {
        reveal_with_fuel(take_vec3s, 2);
        assert(take_vec3s(bytes@, q as int, 0) == Option::Some((Seq::<Vec3>::empty(), q as int)));
        assert(v@ + Seq::<Vec3>::empty() =~= v@);
    }
    Ok((v, q))
}

fn read_uvs(bytes: &Vec<u8>, p: usize, count: u32) -> (r: Result<(Vec<UvCoord>, usize), NmfError>)
    requires
        p <= bytes@.len(),
    ensures
        match r {
            Result::Ok((v, q)) => p <= q <= bytes@.len() && v@.len() == count && cat_uv(v@)
                == bytes@.subrange(p as int, q as int) && (forall|i: int|
                0 <= i < v@.len() ==> wf_uv(#[trigger] v@[i])) && take_uvs(
                bytes@,
                p as int,
                count as int,
            ) == Option::Some((v@, q as int)),
            Result::Err(e) => take_uvs(bytes@, p as int, count as int) is None && (e
                == NmfError::Truncated || e == NmfError::BadCoordinate),
        },
{
    let mut v: Vec<UvCoord> = Vec::new();
    let mut q: usize = p;
    let mut i: u32 = 0;
    proof {
        reveal_with_fuel(take_uvs, 2);
        assert(cat_uv(v@) =~= bytes@.subrange(p as int, p as int));
        match take_uvs(bytes@, p as int, count as int) {
            Option::Some((rest, end)) => {
                assert(v@ + rest =~= rest);
            },
            Option::None => {},
        }
    }
    while i < count
        invariant
            i <= count,
            p <= q <= bytes@.len(),
            v@.len() == i,
            cat_uv(v@) == bytes@.subrange(p as int, q as int),
            forall|j: int| 0 <= j < v@.len() ==> wf_uv(#[trigger] v@[j]),
            (match take_uvs(bytes@, q as int, (count - i) as int) {
                Option::Some((rest, end)) => take_uvs(bytes@, p as int, count as int)
                    == Option::Some((v@ + rest, end)),
                Option::None => take_uvs(bytes@, p as int, count as int) is None,
            }),
        decreases count - i,
    {
        let (u, q1) = match read_coord(bytes, q) {
            Result::Ok(v) => v,
            Result::Err(e) => {
                proof {
                    reveal_with_fuel(take_uvs, 2);
                    assert(take_uvs(bytes@, q as int, (count - i) as int) is None);
                }
                return Err(e);
            },
        };
        let (vv, q2) = match read_coord(bytes, q1) {
            Result::Ok(v) => v,
            Result::Err(e) => {
                proof {
                    reveal_with_fuel(take_uvs, 2);
                    assert(take_uvs(bytes@, q as int, (count - i) as int) is None);
                }
                return Err(e);
            },
        };
        let w = UvCoord { u, v: vv };
        proof {
            reveal_with_fuel(take_uvs, 2);
            lemma_cat_uv_push(v@, w);
            assert(uv_bytes(w) =~= bytes@.subrange(q as int, q2 as int));
            assert(cat_uv(v@) + uv_bytes(w) =~= bytes@.subrange(p as int, q2 as int));
            match take_uvs(bytes@, q2 as int, (count - i - 1) as int) {
                Option::Some((r2, e2)) => {
                    assert(take_uvs(bytes@, q as int, (count - i) as int) == Option::Some(
                        (seq![w] + r2, e2),
                    ));
                    assert(v@ + (seq![w] + r2) =~= v@.push(w) + r2);
                },
                Option::None => {
                    assert(take_uvs(bytes@, q as int, (count - i) as int) is None);
                },
            }
        }
        v.push(w);
        q = q2;
        i += 1;
    }
    proof {
        reveal_with_fuel(take_uvs, 2);
        assert(take_uvs(bytes@, q as int, 0) == Option::Some(
            (Seq::<UvCoord>::empty(), q as int),
        ));
        assert(v@ + Seq::<UvCoord>::empty() =~= v@);
    }
    Ok((v, q))
}

fn read_faces(bytes: &Vec<u8>, p: usize, count: u32, np: u32, nn: u32, nu: u32) -> (r: Result<
    (Vec<Face>, usize),
    NmfError,
>)
    requires
        p <= bytes@.len(),
    ensures
        match r {
            Result::Ok((v, q)) => p <= q <= bytes@.len() && v@.len() == count && cat_face(v@)
                == bytes@.subrange(p as int, q as int) && (forall|i: int|
                0 <= i < v@.len() ==> wf_face(#[trigger] v@[i], np as int, nn as int, nu as int))
                && take_faces(bytes@, p as int, count as int, np as int, nn as int, nu as int)
                == Option::Some((v@, q as int)),
            Result::Err(e) => take_faces(
                bytes@,
                p as int,
                count as int,
                np as int,
                nn as int,
                nu as int,
            ) is None && (e == NmfError::Truncated || e == NmfError::BadIndex),
        },
{
    let mut v: Vec<Face> = Vec::new();
    let mut q: usize = p;
    let mut i: u32 = 0;
    proof {
        reveal_with_fuel(take_faces, 2);
        assert(cat_face(v@) =~= bytes@.subrange(p as int, p as int));
        match take_faces(bytes@, p as int, count as int, np as int, nn as int, nu as int) {
            Option::Some((rest, end)) => {
                assert(v@ + rest =~= rest);
            },
            Option::None => {},
        }
    }
    while i < count
        invariant
            i <= count,
            p <= q <= bytes@.len(),
            v@.len() == i,
            cat_face(v@) == bytes@.subrange(p as int, q as int),
            forall|j: int|
                0 <= j < v@.len() ==> wf_face(#[trigger] v@[j], np as int, nn as int, nu as int),
            (match take_faces(
                bytes@,
                q as int,
                (count - i) as int,
                np as int,
                nn as int,
                nu as int,
            ) {
                Option::Some((rest, end)) => take_faces(
                    bytes@,
                    p as int,
                    count as int,
                    np as int,
                    nn as int,
                    nu as int,
                ) == Option::Some((v@ + rest, end)),
                Option::None => take_faces(
                    bytes@,
                    p as int,
                    count as int,
                    np as int,
                    nn as int,
                    nu as int,
                ) is None,
            }),
        decreases count - i,
    {
        let (f, q9) = match read_face(bytes, q, np, nn, nu) {
            Result::Ok(v) => v,
            Result::Err(e) => {
                proof {
                    reveal_with_fuel(take_faces, 2);
                    assert(take_faces(
                        bytes@,
                        q as int,
                        (count - i) as int,
                        np as int,
                        nn as int,
                        nu as int,
                    ) is None);
                }
                return Err(e);
            },
        };
        proof {
            reveal_with_fuel(take_faces, 2);
            lemma_cat_face_push(v@, f);
            assert(cat_face(v@) + face_bytes(f) =~= bytes@.subrange(p as int, q9 as int));
            match take_faces(
                bytes@,
                q9 as int,
                (count - i - 1) as int,
                np as int,
                nn as int,
                nu as int,
            ) {
                Option::Some((r2, e2)) => {
                    assert(take_faces(
                        bytes@,
                        q as int,
                        (count - i) as int,
                        np as int,
                        nn as int,
                        nu as int,
                    ) == Option::Some((seq![f] + r2, e2)));
                    assert(v@ + (seq![f] + r2) =~= v@.push(f) + r2);
                },
                Option::None => {
                    assert(take_faces(
                        bytes@,
                        q as int,
                        (count - i) as int,
                        np as int,
                        nn as int,
                        nu as int,
                    ) is None);
                },
            }
        }
        v.push(f);
        q = q9;
        i += 1;
    }
    proof {
        reveal_with_fuel(take_faces, 2);
        assert(take_faces(bytes@, q as int, 0, np as int, nn as int, nu as int) == Option::Some(
            (Seq::<Face>::empty(), q as int),
        ));
        assert(v@ + Seq::<Face>::empty() =~= v@);
    }
    Ok((v, q))
}

fn read_corner(bytes: &Vec<u8>, p: usize, np: u32, nn: u32, nu: u32) -> (r: Result<
    (Corner, usize),
    NmfError,
>)
    ensures
        match r {
            Result::Ok((c, q)) => q == p + 12 && q <= bytes@.len() && wf_corner(c, np as int,
                nn as int, nu as int) && corner_bytes(c) == bytes@.subrange(
                p as int,
                p as int + 12,
            ) && take_corner(bytes@, p as int, np as int, nn as int, nu as int) == Option::Some(
                (c, q as int),
            ),
            Result::Err(e) => take_corner(bytes@, p as int, np as int, nn as int, nu as int)
                is None && (e == NmfError::Truncated || e == NmfError::BadIndex),
        },
{
    let (a, p1) = match read_u32(bytes, p) {
        Option::Some(v) => v,
        Option::None => {
            return Err(NmfError::Truncated);
        },
    };
    let (b, p2) = match read_u32(bytes, p1) {
        Option::Some(v) => v,
        Option::None => {
            return Err(NmfError::Truncated);
        },
    };
    let (c, p3) = match read_u32(bytes, p2) {
        Option::Some(v) => v,
        Option::None => {
            return Err(NmfError::Truncated);
        },
    };
    if a >= np || b >= nn || c >= nu {
        return Err(NmfError::BadIndex);
    }
    let k = Corner { pos: a, norm: b, uv: c };
    proof {
        assert(corner_bytes(k) =~= bytes@.subrange(p as int, p as int + 12));
    }
    Ok((k, p + 12))
}

fn read_face(bytes: &Vec<u8>, p: usize, np: u32, nn: u32, nu: u32) -> (r: Result<
    (Face, usize),
    NmfError,
>)
    ensures
        match r {
            Result::Ok((f, q)) => q == p + 36 && q <= bytes@.len() && wf_face(f, np as int,
                nn as int, nu as int) && face_bytes(f) == bytes@.subrange(
                p as int,
                p as int + 36,
            ) && take_face(bytes@, p as int, np as int, nn as int, nu as int) == Option::Some(
                (f, q as int),
            ),
            Result::Err(e) => take_face(bytes@, p as int, np as int, nn as int, nu as int)
                is None && (e == NmfError::Truncated || e == NmfError::BadIndex),
        },
{
    let (a, p1) = match read_corner(bytes, p, np, nn, nu) {
        Result::Ok(v) => v,
        Result::Err(e) => {
            return Err(e);
        },
    };
    let (b, p2) = match read_corner(bytes, p1, np, nn, nu) {
        Result::Ok(v) => v,
        Result::Err(e) => {
            return Err(e);
        },
    };
    let (c, p3) = match read_corner(bytes, p2, np, nn, nu) {
        Result::Ok(v) => v,
        Result::Err(e) => {
            return Err(e);
        },
    };
    let f = Face { a, b, c };
    proof {
        assert(face_bytes(f) =~= bytes@.subrange(p as int, p as int + 36));
    }
    Ok((f, p + 36))
}

#[verifier::rlimit(100)]
fn read_object(bytes: &Vec<u8>, p: usize, nsub: u32) -> (r: Result<(Object, usize), NmfError>)
    requires
        p <= bytes@.len(),
    ensures
        match r {
            Result::Ok((o, q)) => p <= q <= bytes@.len() && wf_object(o) && object_bytes(o)
                == bytes@.subrange(p as int, q as int) && (match o.submaterial_idx {
                Option::Some(s) => (s as int) < nsub as int,
                Option::None => true,
            }) && take_object(bytes@, p as int, nsub as int) == Option::Some((o@, q as int)),
            Result::Err(e) => take_object(bytes@, p as int, nsub as int) is None,
        },
{
    proof {
        reveal(take_object);
    }
    let (name, p1) = match read_name(bytes, p) {
        Result::Ok(v) => v,
        Result::Err(e) => {
            proof {
                reveal(take_object);
            }
            return Err(e);
        },
    };
    let (smraw, p2) = match read_u32(bytes, p1) {
        Option::Some(v) => v,
        Option::None => {
            proof {
                reveal(take_object);
            }
            return Err(NmfError::Truncated);
        },
    };
    let smidx: Option<u32> = if smraw == 0xffff_ffff {
        None
    } else if smraw < nsub {
        Some(smraw)
    } else {
        proof {
            reveal(take_object);
        }
        return Err(NmfError::BadIndex);
    };
    let (npos, p3) = match read_u32(bytes, p2) {
        Option::Some(v) => v,
        Option::None => {
            proof {
                reveal(take_object);
            }
            return Err(NmfError::Truncated);
        },
    };
    let (positions, p4) = match read_vec3s(bytes, p3, npos) {
        Result::Ok(v) => v,
        Result::Err(e) => {
            proof {
                reveal(take_object);
            }
            return Err(e);
        },
    };
    let (nnorm, p5) = match read_u32(bytes, p4) {
        Option::Some(v) => v,
        Option::None => {
            proof {
                reveal(take_object);
            }
            return Err(NmfError::Truncated);
        },
    };
    let (normals, p6) = match read_vec3s(bytes, p5, nnorm) {
        Result::Ok(v) => v,
        Result::Err(e) => {
            proof {
                reveal(take_object);
            }
            return Err(e);
        },
    };
    let (nuv, p7) = match read_u32(bytes, p6) {
        Option::Some(v) => v,
        Option::None => {
            proof {
                reveal(take_object);
            }
            return Err(NmfError::Truncated);
        },
    };
    let (uvs, p8) = match read_uvs(bytes, p7, nuv) {
        Result::Ok(v) => v,
        Result::Err(e) => {
            proof {
                reveal(take_object);
            }
            return Err(e);
        },
    };
    let (nface, p9) = match read_u32(bytes, p8) {
        Option::Some(v) => v,
        Option::None => {
            proof {
                reveal(take_object);
            }
            return Err(NmfError::Truncated);
        },
    };
    let (faces, p10) = match read_faces(bytes, p9, nface, npos, nnorm, nuv) {
        Result::Ok(v) => v,
        Result::Err(e) => {
            proof {
                reveal(take_object);
            }
            return Err(e);
        },
    };
    let o = Object { name, submaterial_idx: smidx, positions, normals, uvs, faces };
    proof {
        reveal(take_object);
        assert(smidx_bytes(o.submaterial_idx) =~= bytes@.subrange(p1 as int, p2 as int));
        assert(object_bytes(o) =~= bytes@.subrange(p as int, p10 as int));
        assert(take_object(bytes@, p as int, nsub as int) == Option::Some((o@, p10 as int)));
    }
    Ok((o, p10))
}

/// Decode a model from the front of `bytes`; on success also yields how
/// many bytes were consumed, which callers must check against the buffer
/// length to detect trailing garbage.
pub fn decode(bytes: &Vec<u8>) -> (r: Result<(Nmf, usize), NmfError>)
    ensures
        match r {
            Result::Ok((m, n)) => n <= bytes@.len() && wf_nmf(m) && nmf_bytes(m)
                == bytes@.subrange(0, n as int) && decode_spec(bytes@) == Option::Some(
                (m@, n as int),
            ),
            Result::Err(e) => decode_spec(bytes@) is None,
        },
{
    let (nsub, p1) = match read_u32(bytes, 0) {
        Option::Some(v) => v,
        Option::None => {
            return Err(NmfError::Truncated);
        },
    };
    let mut submaterials: Vec<SubMaterial> = Vec::new();
    let mut q: usize = p1;
    let mut i: u32 = 0;
    proof {
        reveal_with_fuel(take_submaterials, 2);
        assert(cat_submaterial(submaterials@) =~= bytes@.subrange(p1 as int, p1 as int));
        match take_submaterials(bytes@, p1 as int, nsub as int) {
            Option::Some((rest, end)) => {
                assert(submaterials@.map_values(|sm: SubMaterial| sm.name@) + rest =~= rest);
            },
            Option::None => {},
        }
    }
    while i < nsub
        invariant
            i <= nsub,
            p1 <= q <= bytes@.len(),
            take_u32(bytes@, 0) == Option::Some((nsub, p1 as int)),
            submaterials@.len() == i,
            cat_submaterial(submaterials@) == bytes@.subrange(p1 as int, q as int),
            forall|j: int|
                0 <= j < submaterials@.len() ==> wf_name((#[trigger] submaterials@[j]).name@),
            (match take_submaterials(bytes@, q as int, (nsub - i) as int) {
                Option::Some((rest, end)) => take_submaterials(bytes@, p1 as int, nsub as int)
                    == Option::Some(
                    (submaterials@.map_values(|sm: SubMaterial| sm.name@) + rest, end),
                ),
                Option::None => take_submaterials(bytes@, p1 as int, nsub as int) is None,
            }),
        decreases nsub - i,
    {
        let (name, q1) = match read_name(bytes, q) {
            Result::Ok(v) => v,
            Result::Err(e) => {
                proof {
                    reveal_with_fuel(take_submaterials, 2);
                    assert(take_submaterials(bytes@, q as int, (nsub - i) as int) is None);
                }
                return Err(e);
            },
        };
        let sm = SubMaterial { name };
        proof {
            reveal_with_fuel(take_submaterials, 2);
            lemma_cat_submaterial_push(submaterials@, sm);
            assert(cat_submaterial(submaterials@) + name_bytes(sm.name@) =~= bytes@.subrange(
                p1 as int,
                q1 as int,
            ));
            match take_submaterials(bytes@, q1 as int, (nsub - i - 1) as int) {
                Option::Some((r2, e2)) => {
                    assert(take_submaterials(bytes@, q as int, (nsub - i) as int)
                        == Option::Some((seq![sm.name@] + r2, e2)));
                    assert(submaterials@.map_values(|x: SubMaterial| x.name@) + (seq![sm.name@]
                        + r2) =~= submaterials@.push(sm).map_values(|x: SubMaterial| x.name@)
                        + r2);
                },
                Option::None => {
                    assert(take_submaterials(bytes@, q as int, (nsub - i) as int) is None);
                },
            }
        }
        submaterials.push(sm);
        q = q1;
        i += 1;
    }
    proof {
        reveal_with_fuel(take_submaterials, 2);
        assert(take_submaterials(bytes@, q as int, 0) == Option::Some(
            (Seq::<Seq<char>>::empty(), q as int),
        ));
        assert(submaterials@.map_values(|sm: SubMaterial| sm.name@) + Seq::<Seq<char>>::empty()
            =~= submaterials@.map_values(|sm: SubMaterial| sm.name@));
    }
    let (nobj, p2) = match read_u32(bytes, q) {
        Option::Some(v) => v,
        Option::None => {
            return Err(NmfError::Truncated);
        },
    };
    let mut objects: Vec<Object> = Vec::new();
    let mut q2: usize = p2;
    let mut k: u32 = 0;
    let ghost subnames = submaterials@.map_values(|sm: SubMaterial| sm.name@);
    proof {
        reveal_with_fuel(take_objects, 2);
        assert(cat_object(objects@) =~= bytes@.subrange(p2 as int, p2 as int));
        match take_objects(bytes@, p2 as int, nobj as int, nsub as int) {
            Option::Some((rest, end)) => {
                assert(objects@.map_values(|o: Object| o@) + rest =~= rest);
            },
            Option::None => {},
        }
    }
    while k < nobj
        invariant
            k <= nobj,
            p2 <= q2 <= bytes@.len(),
            nsub == submaterials@.len(),
            take_u32(bytes@, 0) == Option::Some((nsub, p1 as int)),
            take_submaterials(bytes@, p1 as int, nsub as int) == Option::Some(
                (subnames, q as int),
            ),
            subnames == submaterials@.map_values(|sm: SubMaterial| sm.name@),
            take_u32(bytes@, q as int) == Option::Some((nobj, p2 as int)),
            objects@.len() == k,
            cat_object(objects@) == bytes@.subrange(p2 as int, q2 as int),
            forall|j: int| 0 <= j < objects@.len() ==> wf_object(#[trigger] objects@[j]),
            forall|j: int|
                0 <= j < objects@.len() ==> match (#[trigger] objects@[j]).submaterial_idx {
                    Option::Some(s) => (s as int) < submaterials@.len(),
                    Option::None => true,
                },
            (match take_objects(bytes@, q2 as int, (nobj - k) as int, nsub as int) {
                Option::Some((rest, end)) => take_objects(
                    bytes@,
                    p2 as int,
                    nobj as int,
                    nsub as int,
                ) == Option::Some((objects@.map_values(|o: Object| o@) + rest, end)),
                Option::None => take_objects(bytes@, p2 as int, nobj as int, nsub as int)
                    is None,
            }),
        decreases nobj - k,
    {
        let (o, q3) = match read_object(bytes, q2, nsub) {
            Result::Ok(v) => v,
            Result::Err(e) => {
                proof {
                    reveal_with_fuel(take_objects, 2);
                    assert(take_objects(bytes@, q2 as int, (nobj - k) as int, nsub as int)
                        is None);
                }
                return Err(e);
            },
        };
        proof {
            reveal_with_fuel(take_objects, 2);
            lemma_cat_object_push(objects@, o);
            assert(cat_object(objects@) + object_bytes(o) =~= bytes@.subrange(
                p2 as int,
                q3 as int,
            ));
            match take_objects(bytes@, q3 as int, (nobj - k - 1) as int, nsub as int) {
                Option::Some((r2, e2)) => {
                    assert(take_objects(bytes@, q2 as int, (nobj - k) as int, nsub as int)
                        == Option::Some((seq![o@] + r2, e2)));
                    assert(objects@.map_values(|x: Object| x@) + (seq![o@] + r2)
                        =~= objects@.push(o).map_values(|x: Object| x@) + r2);
                },
                Option::None => {
                    assert(take_objects(bytes@, q2 as int, (nobj - k) as int, nsub as int)
                        is None);
                },
            }
        }
        objects.push(o);
        q2 = q3;
        k += 1;
    }
    proof {
        reveal_with_fuel(take_objects, 2);
        assert(take_objects(bytes@, q2 as int, 0, nsub as int) == Option::Some(
            (Seq::<ObjectS>::empty(), q2 as int),
        ));
        assert(objects@.map_values(|o: Object| o@) + Seq::<ObjectS>::empty() =~= objects@
            .map_values(|o: Object| o@));
    }
    let m = Nmf { objects, submaterials };
    proof {
        assert(nmf_bytes(m) =~= bytes@.subrange(0, q2 as int));
        assert(decode_spec(bytes@) == Option::Some((m@, q2 as int)));
    }
    Ok((m, q2))
}

} // verus!

verus! {

// ---------------------------------------------------------------------------
// encoding

fn push_u32(out: &mut Vec<u8>, v: u32)
    ensures
        final(out)@ == old(out)@ + le4(v as int),
{
    let ghost base = out@;
    let b0 = (v % 256) as u8;
    let q1 = v / 256;
    let b1 = (q1 % 256) as u8;
    let q2 = q1 / 256;
    let b2 = (q2 % 256) as u8;
    let b3 = (q2 / 256) as u8;
    proof {
        assert(v as int == b0 + 256 * (b1 as int) + 65536 * (b2 as int) + 16777216 * (b3 as int))
            by (nonlinear_arith)
            requires
                b0 == (v as int) % 256,
                b1 == ((v as int) / 256) % 256,
                b2 == (((v as int) / 256) / 256) % 256,
                b3 == (((v as int) / 256) / 256) / 256,
                q1 == (v as int) / 256,
                q2 == ((v as int) / 256) / 256,
                0 <= v < 0x1_0000_0000,
        ;
        lemma_le4_bytes(b0, b1, b2, b3);
    }
    out.push(b0);
    out.push(b1);
    out.push(b2);
    out.push(b3);
    proof {
        assert(out@ =~= base + le4(v as int));
    }
}

fn push_coord(out: &mut Vec<u8>, c: i64)
    requires
        wf_coord(c),
    ensures
        final(out)@ == old(out)@ + coord_bytes(c),
{
    let ghost base = out@;
    let w: u64 = ((c as i128) + 0x8000_0000_0000_0000i128) as u64;
    let lo: u32 = (w % 0x1_0000_0000) as u32;
    let hi: u32 = (w / 0x1_0000_0000) as u32;
    proof {
        vstd::arithmetic::div_mod::lemma_fundamental_div_mod(w as int, 0x1_0000_0000);
        lemma_le8_split(lo as int, hi as int);
        assert(lo as int + 0x1_0000_0000 * (hi as int) == w as int);
    }
    push_u32(out, lo);
    push_u32(out, hi);
    proof {
        assert(out@ =~= base + coord_bytes(c));
    }
}

fn push_name(out: &mut Vec<u8>, s: &Vec<char>)
    requires
        wf_name(s@),
    ensures
        final(out)@ == old(out)@ + name_bytes(s@),
{
    let ghost base = out@;
    push_u32(out, s.len() as u32);
    let ghost mid = out@;
    let mut i: usize = 0;
    while i < s.len()
        invariant
            i <= s@.len(),
            wf_name(s@),
            out@.len() == mid.len() + i,
            out@ == mid + Seq::new(i as nat, |j: int| (s@[j] as u8)),
        decreases s@.len() - i,
    {
        let c = s[i];
        out.push(c as u8);
        i += 1;
        proof {
            assert(out@ =~= mid + Seq::new(i as nat, |j: int| (s@[j] as u8)));
        }
    }
    proof {
        assert(Seq::new(s@.len(), |j: int| (s@[j] as u8)) =~= chars_bytes(s@));
        assert(out@ =~= base + name_bytes(s@));
    }
}

#[verifier::rlimit(100)]
fn encode_object(o: &Object, out: &mut Vec<u8>)
    requires
        wf_object(*o),
    ensures
        final(out)@ == old(out)@ + object_bytes(*o),
{
    let ghost base = out@;
    push_name(out, &o.name);
    match o.submaterial_idx {
        Option::Some(s) => push_u32(out, s),
        Option::None => push_u32(out, 0xffff_ffff),
    }
    push_u32(out, o.positions.len() as u32);
    let mut i: usize = 0;
    let ghost m0 = out@;
    while i < o.positions.len()
        invariant
            i <= o.positions@.len(),
            wf_object(*o),
            out@ == m0 + cat_vec3(o.positions@.take(i as int)),
        decreases o.positions@.len() - i,
    {
        let v = o.positions[i];
        proof {
            assert(wf_vec3(o.positions@[i as int]));
            lemma_cat_vec3_push(o.positions@.take(i as int), v);
            assert(o.positions@.take(i as int).push(v) =~= o.positions@.take(i as int + 1));
        }
        push_coord(out, v.x);
        push_coord(out, v.y);
        push_coord(out, v.z);
        proof {
            assert(out@ =~= m0 + cat_vec3(o.positions@.take(i as int + 1)));
        }
        i += 1;
    }
    proof {
        assert(o.positions@.take(o.positions@.len() as int) =~= o.positions@);
    }
    push_u32(out, o.normals.len() as u32);
    let mut i2: usize = 0;
    let ghost m1 = out@;
    while i2 < o.normals.len()
        invariant
            i2 <= o.normals@.len(),
            wf_object(*o),
            out@ == m1 + cat_vec3(o.normals@.take(i2 as int)),
        decreases o.normals@.len() - i2,
    {
        let v = o.normals[i2];
        proof {
            assert(wf_vec3(o.normals@[i2 as int]));
            lemma_cat_vec3_push(o.normals@.take(i2 as int), v);
            assert(o.normals@.take(i2 as int).push(v) =~= o.normals@.take(i2 as int + 1));
        }
        push_coord(out, v.x);
        push_coord(out, v.y);
        push_coord(out, v.z);
        proof {
            assert(out@ =~= m1 + cat_vec3(o.normals@.take(i2 as int + 1)));
        }
        i2 += 1;
    }
    proof {
        assert(o.normals@.take(o.normals@.len() as int) =~= o.normals@);
    }
    push_u32(out, o.uvs.len() as u32);
    let mut i3: usize = 0;
    let ghost m2 = out@;
    while i3 < o.uvs.len()
        invariant
            i3 <= o.uvs@.len(),
            wf_object(*o),
            out@ == m2 + cat_uv(o.uvs@.take(i3 as int)),
        decreases o.uvs@.len() - i3,
    {
        let v = o.uvs[i3];
        proof {
            assert(wf_uv(o.uvs@[i3 as int]));
            lemma_cat_uv_push(o.uvs@.take(i3 as int), v);
            assert(o.uvs@.take(i3 as int).push(v) =~= o.uvs@.take(i3 as int + 1));
        }
        push_coord(out, v.u);
        push_coord(out, v.v);
        proof {
            assert(out@ =~= m2 + cat_uv(o.uvs@.take(i3 as int + 1)));
        }
        i3 += 1;
    }
    proof {
        assert(o.uvs@.take(o.uvs@.len() as int) =~= o.uvs@);
    }
    push_u32(out, o.faces.len() as u32);
    let mut i4: usize = 0;
    let ghost m3 = out@;
    while i4 < o.faces.len()
        invariant
            i4 <= o.faces@.len(),
            wf_object(*o),
            out@ == m3 + cat_face(o.faces@.take(i4 as int)),
        decreases o.faces@.len() - i4,
    {
        let f = o.faces[i4];
        proof {
            lemma_cat_face_push(o.faces@.take(i4 as int), f);
            assert(o.faces@.take(i4 as int).push(f) =~= o.faces@.take(i4 as int + 1));
        }
        push_u32(out, f.a.pos);
        push_u32(out, f.a.norm);
        push_u32(out, f.a.uv);
        push_u32(out, f.b.pos);
        push_u32(out, f.b.norm);
        push_u32(out, f.b.uv);
        push_u32(out, f.c.pos);
        push_u32(out, f.c.norm);
        push_u32(out, f.c.uv);
        proof {
            assert(out@ =~= m3 + cat_face(o.faces@.take(i4 as int + 1)));
        }
        i4 += 1;
    }
    proof {
        assert(o.faces@.take(o.faces@.len() as int) =~= o.faces@);
        assert(out@ =~= base + object_bytes(*o));
    }
}

/// Encode a model into its exact byte representation.
pub fn encode(m: &Nmf) -> (out: Vec<u8>)
    requires
        wf_nmf(*m),
    ensures
        out@ == nmf_bytes(*m),
{
    let mut out: Vec<u8> = Vec::new();
    push_u32(&mut out, m.submaterials.len() as u32);
    let ghost m0 = out@;
    let mut i: usize = 0;
    while i < m.submaterials.len()
        invariant
            i <= m.submaterials@.len(),
            wf_nmf(*m),
            out@ == m0 + cat_submaterial(m.submaterials@.take(i as int)),
        decreases m.submaterials@.len() - i,
    {
        proof {
            assert(wf_name(m.submaterials@[i as int].name@));
            lemma_cat_submaterial_push(m.submaterials@.take(i as int), m.submaterials@[i as int]);
            assert(m.submaterials@.take(i as int).push(m.submaterials@[i as int])
                =~= m.submaterials@.take(i as int + 1));
        }
        push_name(&mut out, &m.submaterials[i].name);
        proof {
            assert(out@ =~= m0 + cat_submaterial(m.submaterials@.take(i as int + 1)));
        }
        i += 1;
    }
    proof {
        assert(m.submaterials@.take(m.submaterials@.len() as int) =~= m.submaterials@);
    }
    push_u32(&mut out, m.objects.len() as u32);
    let ghost m1 = out@;
    let mut k: usize = 0;
    while k < m.objects.len()
        invariant
            k <= m.objects@.len(),
            wf_nmf(*m),
            out@ == m1 + cat_object(m.objects@.take(k as int)),
        decreases m.objects@.len() - k,
    {
        proof {
            assert(wf_object(m.objects@[k as int]));
            lemma_cat_object_push(m.objects@.take(k as int), m.objects@[k as int]);
            assert(m.objects@.take(k as int).push(m.objects@[k as int]) =~= m.objects@.take(
                k as int + 1,
            ));
        }
        encode_object(&m.objects[k], &mut out);
        proof {
            assert(out@ =~= m1 + cat_object(m.objects@.take(k as int + 1)));
        }
        k += 1;
    }
    proof {
        assert(m.objects@.take(m.objects@.len() as int) =~= m.objects@);
        assert(out@ =~= nmf_bytes(*m));
    }
    out
}

} // verus!

verus! {

// ---------------------------------------------------------------------------
// transforms

/// A vector with its Z coordinate negated.
pub open spec fn vec3_mirror(v: Vec3) -> Vec3 {
    Vec3 { x: v.x, y: v.y, z: (-(v.z as int)) as i64 }
}

/// A face with its winding order reversed.
pub open spec fn face_flip(f: Face) -> Face {
    Face { a: f.a, b: f.c, c: f.b }
}

pub open spec fn obj_mirrored(a: Object, b: Object) -> bool {
    &&& b.name@ == a.name@
    &&& b.submaterial_idx == a.submaterial_idx
    &&& b.positions@.len() == a.positions@.len()
    &&& forall|j: int|
        0 <= j < a.positions@.len() ==> #[trigger] b.positions@[j] == vec3_mirror(
            a.positions@[j],
        )
    &&& b.normals@.len() == a.normals@.len()
    &&& forall|j: int|
        0 <= j < a.normals@.len() ==> #[trigger] b.normals@[j] == vec3_mirror(a.normals@[j])
    &&& b.uvs@ == a.uvs@
    &&& b.faces@.len() == a.faces@.len()
    &&& forall|j: int|
        0 <= j < a.faces@.len() ==> #[trigger] b.faces@[j] == face_flip(a.faces@[j])
}

/// `b` is `a` mirrored across the XY plane: positions and normals have
/// their Z negated, and every face's winding is reversed.
pub open spec fn mirrored(a: Nmf, b: Nmf) -> bool {
    &&& b.submaterials@ == a.submaterials@
    &&& b.objects@.len() == a.objects@.len()
    &&& forall|i: int|
        0 <= i < a.objects@.len() ==> obj_mirrored(a.objects@[i], #[trigger] b.objects@[i])
}

fn copy_name(s: &Vec<char>) -> (r: Vec<char>)
    ensures
        r@ == s@,
{
    let r = crate::text::range_text(s, 0, s.len());
    assert(r@ =~= s@);
    r
}

fn mirror_object(o: &Object) -> (r: Object)
    requires
        wf_object(*o),
    ensures
        obj_mirrored(*o, r),
        wf_object(r),
{
    let name = copy_name(&o.name);
    let mut positions: Vec<Vec3> = Vec::new();
    let mut i: usize = 0;
    while i < o.positions.len()
        invariant
            i <= o.positions@.len(),
            wf_object(*o),
            positions@.len() == i,
            forall|j: int|
                0 <= j < i ==> #[trigger] positions@[j] == vec3_mirror(o.positions@[j]),
            forall|j: int| 0 <= j < i ==> wf_vec3(#[trigger] positions@[j]),
        decreases o.positions@.len() - i,
    {
        let v = o.positions[i];
        assert(wf_vec3(o.positions@[i as int]));
        positions.push(Vec3 { x: v.x, y: v.y, z: -v.z });
        i += 1;
    }
    let mut normals: Vec<Vec3> = Vec::new();
    let mut i2: usize = 0;
    while i2 < o.normals.len()
        invariant
            i2 <= o.normals@.len(),
            wf_object(*o),
            normals@.len() == i2,
            forall|j: int| 0 <= j < i2 ==> #[trigger] normals@[j] == vec3_mirror(o.normals@[j]),
            forall|j: int| 0 <= j < i2 ==> wf_vec3(#[trigger] normals@[j]),
        decreases o.normals@.len() - i2,
    {
        let v = o.normals[i2];
        assert(wf_vec3(o.normals@[i2 as int]));
        normals.push(Vec3 { x: v.x, y: v.y, z: -v.z });
        i2 += 1;
    }
    let mut uvs: Vec<UvCoord> = Vec::new();
    let mut i3: usize = 0;
    while i3 < o.uvs.len()
        invariant
            i3 <= o.uvs@.len(),
            wf_object(*o),
            uvs@.len() == i3,
            forall|j: int| 0 <= j < i3 ==> #[trigger] uvs@[j] == o.uvs@[j],
        decreases o.uvs@.len() - i3,
    {
        uvs.push(o.uvs[i3]);
        i3 += 1;
    }
    let mut faces: Vec<Face> = Vec::new();
    let mut i4: usize = 0;
    while i4 < o.faces.len()
        invariant
            i4 <= o.faces@.len(),
            wf_object(*o),
            faces@.len() == i4,
            forall|j: int| 0 <= j < i4 ==> #[trigger] faces@[j] == face_flip(o.faces@[j]),
        decreases o.faces@.len() - i4,
    {
        let f = o.faces[i4];
        assert(wf_face(o.faces@[i4 as int], o.positions@.len() as int, o.normals@.len() as int,
            o.uvs@.len() as int));
        faces.push(Face { a: f.a, b: f.c, c: f.b });
        i4 += 1;
    }
    let r = Object { name, submaterial_idx: o.submaterial_idx, positions, normals, uvs, faces };
    proof {
        assert(uvs@ =~= o.uvs@);
        assert forall|j: int| 0 <= j < r.faces@.len() implies wf_face(
            #[trigger] r.faces@[j],
            r.positions@.len() as int,
            r.normals@.len() as int,
            r.uvs@.len() as int,
        ) by {
            assert(r.faces@[j] == face_flip(o.faces@[j]));
            assert(wf_face(o.faces@[j], o.positions@.len() as int, o.normals@.len() as int,
                o.uvs@.len() as int));
        }
    }
    r
}

/// Mirror the whole model across the XY plane.
pub fn mirror_z(m: &mut Nmf)
    requires
        wf_nmf(*old(m)),
    ensures
        mirrored(*old(m), *final(m)),
        wf_nmf(*final(m)),
{
    let mut objects: Vec<Object> = Vec::new();
    let mut i: usize = 0;
    while i < m.objects.len()
        invariant
            i <= m.objects@.len(),
            wf_nmf(*m),
            m == old(m),
            objects@.len() == i,
            forall|j: int|
                0 <= j < i ==> obj_mirrored(old(m).objects@[j], #[trigger] objects@[j]),
            forall|j: int| 0 <= j < i ==> wf_object(#[trigger] objects@[j]),
            forall|j: int|
                0 <= j < i ==> match (#[trigger] objects@[j]).submaterial_idx {
                    Option::Some(s) => (s as int) < old(m).submaterials@.len(),
                    Option::None => true,
                },
        decreases m.objects@.len() - i,
    {
        assert(wf_object(m.objects@[i as int]));
        let o = mirror_object(&m.objects[i]);
        proof {
            assert(o.submaterial_idx == m.objects@[i as int].submaterial_idx);
        }
        objects.push(o);
        i += 1;
    }
    m.objects = objects;
}

/// Mirror involution: mirroring twice restores every position, normal and
/// face winding exactly.
pub proof fn lemma_mirror_involution(a: Nmf, b: Nmf, c: Nmf)
    requires
        wf_nmf(a),
        mirrored(a, b),
        mirrored(b, c),
    ensures
        c.submaterials@ == a.submaterials@,
        c.objects@.len() == a.objects@.len(),
        forall|i: int|
            0 <= i < a.objects@.len() ==> {
                let ao = a.objects@[i];
                let co = #[trigger] c.objects@[i];
                co.name@ == ao.name@ && co.submaterial_idx == ao.submaterial_idx && co.positions@
                    =~= ao.positions@ && co.normals@ =~= ao.normals@ && co.uvs@ == ao.uvs@
                    && co.faces@ =~= ao.faces@
            },
{
    assert forall|i: int| 0 <= i < a.objects@.len() implies {
        let ao = a.objects@[i];
        let co = #[trigger] c.objects@[i];
        co.name@ == ao.name@ && co.submaterial_idx == ao.submaterial_idx && co.positions@
            =~= ao.positions@ && co.normals@ =~= ao.normals@ && co.uvs@ == ao.uvs@ && co.faces@
            =~= ao.faces@
    } by {
        let ao = a.objects@[i];
        let bo = b.objects@[i];
        let co = c.objects@[i];
        assert(wf_object(ao));
        assert(obj_mirrored(ao, bo));
        assert(obj_mirrored(bo, co));
        assert forall|j: int| 0 <= j < ao.positions@.len() implies #[trigger] co.positions@[j]
            == ao.positions@[j] by {
            assert(bo.positions@[j] == vec3_mirror(ao.positions@[j]));
            assert(co.positions@[j] == vec3_mirror(bo.positions@[j]));
            assert(wf_vec3(ao.positions@[j]));
        }
        assert forall|j: int| 0 <= j < ao.normals@.len() implies #[trigger] co.normals@[j]
            == ao.normals@[j] by {
            assert(bo.normals@[j] == vec3_mirror(ao.normals@[j]));
            assert(co.normals@[j] == vec3_mirror(bo.normals@[j]));
            assert(wf_vec3(ao.normals@[j]));
        }
        assert forall|j: int| 0 <= j < ao.faces@.len() implies #[trigger] co.faces@[j]
            == ao.faces@[j] by {
            assert(bo.faces@[j] == face_flip(ao.faces@[j]));
            assert(co.faces@[j] == face_flip(bo.faces@[j]));
        }
        assert(co.positions@ =~= ao.positions@);
        assert(co.normals@ =~= ao.normals@);
        assert(co.faces@ =~= ao.faces@);
        assert(co.uvs@ == bo.uvs@ && bo.uvs@ == ao.uvs@);
    }
}

// ---------------------------------------------------------------------------
// scaling

pub open spec fn obj_scaled(a: Object, b: Object, f: i64) -> bool {
    &&& b.name@ == a.name@
    &&& b.submaterial_idx == a.submaterial_idx
    &&& b.positions@.len() == a.positions@.len()
    &&& forall|j: int|
        0 <= j < a.positions@.len() ==> {
            let av = a.positions@[j];
            let bv = #[trigger] b.positions@[j];
            bv.x == scale_fixed(av.x as int, f as int) && bv.y == scale_fixed(
                av.y as int,
                f as int,
            ) && bv.z == scale_fixed(av.z as int, f as int)
        }
    &&& b.normals@ == a.normals@
    &&& b.uvs@ == a.uvs@
    &&& b.faces@ == a.faces@
}

/// `b` is `a` with every position coordinate scaled by the fixed-point
/// factor `f`; normals are untouched (a uniform scale keeps directions).
pub open spec fn scaled(a: Nmf, b: Nmf, f: i64) -> bool {
    &&& b.submaterials@ == a.submaterials@
    &&& b.objects@.len() == a.objects@.len()
    &&& forall|i: int|
        0 <= i < a.objects@.len() ==> obj_scaled(a.objects@[i], #[trigger] b.objects@[i], f)
}

/// Every coordinate of `v` scaled by `f` fits the representation.
pub open spec fn vec3_scale_ok(v: Vec3, f: i64) -> bool {
    &&& abs1(scale_fixed(v.x as int, f as int)) <= i64::MAX
    &&& abs1(scale_fixed(v.y as int, f as int)) <= i64::MAX
    &&& abs1(scale_fixed(v.z as int, f as int)) <= i64::MAX
}

fn scale_vec3(v: Vec3, f: i64) -> (r: Option<Vec3>)
    ensures
        match r {
            Option::Some(w) => vec3_scale_ok(v, f) && w.x == scale_fixed(v.x as int, f as int)
                && w.y == scale_fixed(v.y as int, f as int) && w.z == scale_fixed(
                v.z as int,
                f as int,
            ) && wf_vec3(w),
            Option::None => !vec3_scale_ok(v, f),
        },
{
    let x = match scale_coord(v.x, f) {
        Option::Some(c) => c,
        Option::None => {
            return None;
        },
    };
    let y = match scale_coord(v.y, f) {
        Option::Some(c) => c,
        Option::None => {
            return None;
        },
    };
    let z = match scale_coord(v.z, f) {
        Option::Some(c) => c,
        Option::None => {
            return None;
        },
    };
    Some(Vec3 { x, y, z })
}

fn scale_object(o: &Object, f: i64) -> (r: Option<Object>)
    requires
        wf_object(*o),
    ensures
        match r {
            Option::Some(b) => obj_scaled(*o, b, f) && wf_object(b) && (forall|j: int|
                0 <= j < o.positions@.len() ==> vec3_scale_ok(#[trigger] o.positions@[j], f)),
            Option::None => exists|j: int|
                0 <= j < o.positions@.len() && !vec3_scale_ok(#[trigger] o.positions@[j], f),
        },
{
    let name = copy_name(&o.name);
    let mut positions: Vec<Vec3> = Vec::new();
    let mut i: usize = 0;
    while i < o.positions.len()
        invariant
            i <= o.positions@.len(),
            wf_object(*o),
            positions@.len() == i,
            forall|j: int| 0 <= j < i ==> vec3_scale_ok(#[trigger] o.positions@[j], f),
            forall|j: int|
                0 <= j < i ==> {
                    let av = o.positions@[j];
                    let bv = #[trigger] positions@[j];
                    bv.x == scale_fixed(av.x as int, f as int) && bv.y == scale_fixed(
                        av.y as int,
                        f as int,
                    ) && bv.z == scale_fixed(av.z as int, f as int)
                },
            forall|j: int| 0 <= j < i ==> wf_vec3(#[trigger] positions@[j]),
        decreases o.positions@.len() - i,
    {
        let v = o.positions[i];
        match scale_vec3(v, f) {
            Option::Some(w) => {
                positions.push(w);
            },
            Option::None => {
                proof {
                    assert(!vec3_scale_ok(o.positions@[i as int], f));
                }
                return None;
            },
        }
        i += 1;
    }
    let mut normals: Vec<Vec3> = Vec::new();
    let mut i2: usize = 0;
    while i2 < o.normals.len()
        invariant
            i2 <= o.normals@.len(),
            wf_object(*o),
            normals@.len() == i2,
            forall|j: int| 0 <= j < i2 ==> #[trigger] normals@[j] == o.normals@[j],
        decreases o.normals@.len() - i2,
    {
        normals.push(o.normals[i2]);
        i2 += 1;
    }
    let mut uvs: Vec<UvCoord> = Vec::new();
    let mut i3: usize = 0;
    while i3 < o.uvs.len()
        invariant
            i3 <= o.uvs@.len(),
            wf_object(*o),
            uvs@.len() == i3,
            forall|j: int| 0 <= j < i3 ==> #[trigger] uvs@[j] == o.uvs@[j],
        decreases o.uvs@.len() - i3,
    {
        uvs.push(o.uvs[i3]);
        i3 += 1;
    }
    let mut faces: Vec<Face> = Vec::new();
    let mut i4: usize = 0;
    while i4 < o.faces.len()
        invariant
            i4 <= o.faces@.len(),
            wf_object(*o),
            faces@.len() == i4,
            forall|j: int| 0 <= j < i4 ==> #[trigger] faces@[j] == o.faces@[j],
        decreases o.faces@.len() - i4,
    {
        faces.push(o.faces[i4]);
        i4 += 1;
    }
    let r = Object { name, submaterial_idx: o.submaterial_idx, positions, normals, uvs, faces };
    proof {
        assert(r.normals@ =~= o.normals@);
        assert(r.uvs@ =~= o.uvs@);
        assert(r.faces@ =~= o.faces@);
        assert forall|j: int| 0 <= j < r.faces@.len() implies wf_face(
            #[trigger] r.faces@[j],
            r.positions@.len() as int,
            r.normals@.len() as int,
            r.uvs@.len() as int,
        ) by {
            assert(r.faces@[j] == o.faces@[j]);
            assert(wf_face(o.faces@[j], o.positions@.len() as int, o.normals@.len() as int,
                o.uvs@.len() as int));
        }
        assert forall|j: int| 0 <= j < r.normals@.len() implies wf_vec3(
            #[trigger] r.normals@[j],
        ) by {
            assert(r.normals@[j] == o.normals@[j]);
        }
        assert forall|j: int| 0 <= j < r.uvs@.len() implies wf_uv(#[trigger] r.uvs@[j]) by {
            assert(r.uvs@[j] == o.uvs@[j]);
        }
    }
    Some(r)
}

/// Every position coordinate of the model scales by `f` without leaving
/// the representation.
pub open spec fn nmf_scale_ok(m: Nmf, f: i64) -> bool {
    forall|i: int, j: int|
        0 <= i < m.objects@.len() && 0 <= j < m.objects@[i].positions@.len()
            ==> vec3_scale_ok(#[trigger] m.objects@[i].positions@[j], f)
}

/// Scale every position of the model by the fixed-point factor; succeeds
/// exactly when every scaled coordinate fits, and on overflow nothing is
/// changed.
pub fn scale(m: &mut Nmf, factor: i64) -> (ok: bool)
    requires
        wf_nmf(*old(m)),
    ensures
        ok == nmf_scale_ok(*old(m), factor),
        ok ==> scaled(*old(m), *final(m), factor) && wf_nmf(*final(m)),
        !ok ==> *final(m) == *old(m),
{
    let mut objects: Vec<Object> = Vec::new();
    let mut i: usize = 0;
    while i < m.objects.len()
        invariant
            i <= m.objects@.len(),
            wf_nmf(*m),
            m == old(m),
            objects@.len() == i,
            forall|j: int|
                0 <= j < i ==> obj_scaled(old(m).objects@[j], #[trigger] objects@[j], factor),
            forall|j: int| 0 <= j < i ==> wf_object(#[trigger] objects@[j]),
            forall|j: int|
                0 <= j < i ==> match (#[trigger] objects@[j]).submaterial_idx {
                    Option::Some(s) => (s as int) < old(m).submaterials@.len(),
                    Option::None => true,
                },
            forall|k: int, j: int|
                0 <= k < i && 0 <= j < old(m).objects@[k].positions@.len() ==> vec3_scale_ok(
                    #[trigger] old(m).objects@[k].positions@[j],
                    factor,
                ),
        decreases m.objects@.len() - i,
    {
        assert(wf_object(m.objects@[i as int]));
        match scale_object(&m.objects[i], factor) {
            Option::Some(o) => {
                proof {
                    assert(o.submaterial_idx == m.objects@[i as int].submaterial_idx);
                }
                objects.push(o);
            },
            Option::None => {
                proof {
                    let j = choose|j: int|
                        0 <= j < m.objects@[i as int].positions@.len() && !vec3_scale_ok(
                            #[trigger] m.objects@[i as int].positions@[j],
                            factor,
                        );
                    assert(!vec3_scale_ok(m.objects@[i as int].positions@[j], factor));
                    assert(!nmf_scale_ok(*m, factor));
                }
                return false;
            },
        }
        i += 1;
    }
    proof {
        assert(nmf_scale_ok(*m, factor));
    }
    m.objects = objects;
    true
}

/// Scale composition: scaling by `a` then `b` agrees with scaling once by
/// the composed factor up to one fixed-point truncation step; normals stay
/// bit-identical through every scale.
pub proof fn lemma_scale_composition(m0: Nmf, m1: Nmf, m2: Nmf, m3: Nmf, a: i64, b: i64)
    requires
        a >= 0,
        b >= 0,
        abs1(scale_fixed(a as int, b as int)) <= i64::MAX,
        scaled(m0, m1, a),
        scaled(m1, m2, b),
        scaled(m0, m3, scale_fixed(a as int, b as int) as i64),
    ensures
        forall|i: int, j: int|
            0 <= i < m0.objects@.len() && 0 <= j < m0.objects@[i].positions@.len() ==> {
                let v0 = m0.objects@[i].positions@[j];
                let v2 = #[trigger] m2.objects@[i].positions@[j];
                let v3 = #[trigger] m3.objects@[i].positions@[j];
                &&& 10000 * (v2.x - v3.x) <= 9999 + abs1(v0.x as int) + b
                &&& 10000 * (v3.x - v2.x) <= 9999 + abs1(v0.x as int) + b
                &&& 10000 * (v2.y - v3.y) <= 9999 + abs1(v0.y as int) + b
                &&& 10000 * (v3.y - v2.y) <= 9999 + abs1(v0.y as int) + b
                &&& 10000 * (v2.z - v3.z) <= 9999 + abs1(v0.z as int) + b
                &&& 10000 * (v3.z - v2.z) <= 9999 + abs1(v0.z as int) + b
            },
        forall|i: int|
            0 <= i < m0.objects@.len() ==> (#[trigger] m2.objects@[i]).normals@
                == m0.objects@[i].normals@ && (#[trigger] m3.objects@[i]).normals@
                == m0.objects@[i].normals@,
{
    assert forall|i: int, j: int|
        0 <= i < m0.objects@.len() && 0 <= j < m0.objects@[i].positions@.len() implies {
        let v0 = m0.objects@[i].positions@[j];
        let v2 = #[trigger] m2.objects@[i].positions@[j];
        let v3 = #[trigger] m3.objects@[i].positions@[j];
        &&& 10000 * (v2.x - v3.x) <= 9999 + abs1(v0.x as int) + b
        &&& 10000 * (v3.x - v2.x) <= 9999 + abs1(v0.x as int) + b
        &&& 10000 * (v2.y - v3.y) <= 9999 + abs1(v0.y as int) + b
        &&& 10000 * (v3.y - v2.y) <= 9999 + abs1(v0.y as int) + b
        &&& 10000 * (v2.z - v3.z) <= 9999 + abs1(v0.z as int) + b
        &&& 10000 * (v3.z - v2.z) <= 9999 + abs1(v0.z as int) + b
    } by {
        let v0 = m0.objects@[i].positions@[j];
        let v1 = m1.objects@[i].positions@[j];
        let v2 = m2.objects@[i].positions@[j];
        let v3 = m3.objects@[i].positions@[j];
        assert(obj_scaled(m0.objects@[i], m1.objects@[i], a));
        assert(obj_scaled(m1.objects@[i], m2.objects@[i], b));
        assert(obj_scaled(m0.objects@[i], m3.objects@[i], scale_fixed(a as int, b as int) as i64));
        lemma_scale_compose(v0.x as int, a as int, b as int);
        lemma_scale_compose(v0.y as int, a as int, b as int);
        lemma_scale_compose(v0.z as int, a as int, b as int);
    }
    assert forall|i: int| 0 <= i < m0.objects@.len() implies (
    #[trigger] m2.objects@[i]).normals@ == m0.objects@[i].normals@ && (
    #[trigger] m3.objects@[i]).normals@ == m0.objects@[i].normals@ by {
        assert(obj_scaled(m0.objects@[i], m1.objects@[i], a));
        assert(obj_scaled(m1.objects@[i], m2.objects@[i], b));
        assert(obj_scaled(m0.objects@[i], m3.objects@[i], scale_fixed(a as int, b as int) as i64));
    }
}

} // verus!

verus! {

// ---------------------------------------------------------------------------
// index deduplication

/// Entry `k` of `tbl` appears somewhere in `v`.
pub open spec fn from_input<T>(tbl: Seq<T>, v: Seq<T>, k: int) -> bool {
    exists|j: int| 0 <= j < v.len() && tbl[k] == #[trigger] v[j]
}

fn dedup_vec3(v: &Vec<Vec3>) -> (r: (Vec<Vec3>, Vec<u32>))
    requires
        v@.len() <= 0xffff_ffff,
    ensures
        r.1@.len() == v@.len(),
        r.0@.len() <= v@.len(),
        forall|i: int|
            0 <= i < v@.len() ==> ((#[trigger] r.1@[i]) as int) < r.0@.len() && r.0@[r.1@[i] as int]
                == v@[i],
        forall|i: int, j: int| 0 <= i < j < r.0@.len() ==> r.0@[i] != r.0@[j],
        forall|i: int| 0 <= i < r.0@.len() ==> #[trigger] from_input(r.0@, v@, i),
{
    let mut tbl: Vec<Vec3> = Vec::new();
    let mut map: Vec<u32> = Vec::new();
    let mut i: usize = 0;
    while i < v.len()
        invariant
            i <= v@.len() <= 0xffff_ffff,
            map@.len() == i,
            tbl@.len() <= i,
            forall|k: int|
                0 <= k < i ==> ((#[trigger] map@[k]) as int) < tbl@.len() && tbl@[map@[k] as int]
                    == v@[k],
            forall|k: int, l: int| 0 <= k < l < tbl@.len() ==> tbl@[k] != tbl@[l],
            forall|k: int| 0 <= k < tbl@.len() ==> #[trigger] from_input(tbl@, v@, k),
        decreases v@.len() - i,
    {
        let x = v[i];
        let mut found: Option<usize> = None;
        let mut t: usize = 0;
        while t < tbl.len()
            invariant
                t <= tbl@.len(),
                x == v@[i as int],
                match found {
                    Option::Some(f) => f < tbl@.len() && tbl@[f as int] == x,
                    Option::None => forall|k: int| 0 <= k < t ==> (#[trigger] tbl@[k]) != x,
                },
            decreases tbl@.len() - t + (if found is Some { 0int } else { 1int }),
        {
            if found.is_none() && tbl[t] == x {
                found = Some(t);
            }
            t += 1;
        }
        match found {
            Option::Some(f) => {
                map.push(f as u32);
            },
            Option::None => {
                let idx = tbl.len();
                let ghost old_tbl = tbl@;
                tbl.push(x);
                map.push(idx as u32);
                proof {
                    assert forall|k: int| 0 <= k < tbl@.len() implies #[trigger] from_input(
                        tbl@,
                        v@,
                        k,
                    ) by {
                        if k < old_tbl.len() {
                            assert(tbl@[k] == old_tbl[k]);
                            assert(from_input(old_tbl, v@, k));
                            let j = choose|j: int| 0 <= j < v@.len() && old_tbl[k] == #[trigger] v@[j];
                            assert(tbl@[k] == v@[j]);
                        } else {
                            assert(tbl@[k] == v@[i as int]);
                        }
                    }
                }
            },
        }
        i += 1;
    }
    (tbl, map)
}

fn dedup_uv(v: &Vec<UvCoord>) -> (r: (Vec<UvCoord>, Vec<u32>))
    requires
        v@.len() <= 0xffff_ffff,
    ensures
        r.1@.len() == v@.len(),
        r.0@.len() <= v@.len(),
        forall|i: int|
            0 <= i < v@.len() ==> ((#[trigger] r.1@[i]) as int) < r.0@.len() && r.0@[r.1@[i] as int]
                == v@[i],
        forall|i: int, j: int| 0 <= i < j < r.0@.len() ==> r.0@[i] != r.0@[j],
        forall|i: int| 0 <= i < r.0@.len() ==> #[trigger] from_input(r.0@, v@, i),
{
    let mut tbl: Vec<UvCoord> = Vec::new();
    let mut map: Vec<u32> = Vec::new();
    let mut i: usize = 0;
    while i < v.len()
        invariant
            i <= v@.len() <= 0xffff_ffff,
            map@.len() == i,
            tbl@.len() <= i,
            forall|k: int|
                0 <= k < i ==> ((#[trigger] map@[k]) as int) < tbl@.len() && tbl@[map@[k] as int]
                    == v@[k],
            forall|k: int, l: int| 0 <= k < l < tbl@.len() ==> tbl@[k] != tbl@[l],
            forall|k: int| 0 <= k < tbl@.len() ==> #[trigger] from_input(tbl@, v@, k),
        decreases v@.len() - i,
    {
        let x = v[i];
        let mut found: Option<usize> = None;
        let mut t: usize = 0;
        while t < tbl.len()
            invariant
                t <= tbl@.len(),
                x == v@[i as int],
                match found {
                    Option::Some(f) => f < tbl@.len() && tbl@[f as int] == x,
                    Option::None => forall|k: int| 0 <= k < t ==> (#[trigger] tbl@[k]) != x,
                },
            decreases tbl@.len() - t + (if found is Some { 0int } else { 1int }),
        {
            if found.is_none() && tbl[t] == x {
                found = Some(t);
            }
            t += 1;
        }
        match found {
            Option::Some(f) => {
                map.push(f as u32);
            },
            Option::None => {
                let idx = tbl.len();
                let ghost old_tbl = tbl@;
                tbl.push(x);
                map.push(idx as u32);
                proof {
                    assert forall|k: int| 0 <= k < tbl@.len() implies #[trigger] from_input(
                        tbl@,
                        v@,
                        k,
                    ) by {
                        if k < old_tbl.len() {
                            assert(tbl@[k] == old_tbl[k]);
                            assert(from_input(old_tbl, v@, k));
                            let j = choose|j: int| 0 <= j < v@.len() && old_tbl[k] == #[trigger] v@[j];
                            assert(tbl@[k] == v@[j]);
                        } else {
                            assert(tbl@[k] == v@[i as int]);
                        }
                    }
                }
            },
        }
        i += 1;
    }
    (tbl, map)
}

/// The geometry a corner refers to: its position, normal and UV values.
pub open spec fn corner_geom(o: Object, c: Corner) -> (Vec3, Vec3, UvCoord) {
    (o.positions@[c.pos as int], o.normals@[c.norm as int], o.uvs@[c.uv as int])
}

/// Deduplicate identical position/normal/UV records of one object and
/// re-index its faces; the per-face geometry is unchanged, the buffers
/// never grow, and the deduplicated buffers hold no repeated value.
pub fn optimize(o: &Object) -> (r: Object)
    requires
        wf_object(*o),
    ensures
        wf_object(r),
        r.name@ == o.name@,
        r.submaterial_idx == o.submaterial_idx,
        r.positions@.len() <= o.positions@.len(),
        r.normals@.len() <= o.normals@.len(),
        r.uvs@.len() <= o.uvs@.len(),
        r.faces@.len() == o.faces@.len(),
        forall|k: int|
            0 <= k < o.faces@.len() ==> {
                let of = o.faces@[k];
                let rf = #[trigger] r.faces@[k];
                corner_geom(r, rf.a) == corner_geom(*o, of.a) && corner_geom(r, rf.b)
                    == corner_geom(*o, of.b) && corner_geom(r, rf.c) == corner_geom(*o, of.c)
            },
        forall|i: int, j: int| 0 <= i < j < r.positions@.len() ==> r.positions@[i] != r.positions@[j],
        forall|i: int, j: int| 0 <= i < j < r.normals@.len() ==> r.normals@[i] != r.normals@[j],
        forall|i: int, j: int| 0 <= i < j < r.uvs@.len() ==> r.uvs@[i] != r.uvs@[j],
{
    let name = copy_name(&o.name);
    let (positions, pmap) = dedup_vec3(&o.positions);
    let (normals, nmap) = dedup_vec3(&o.normals);
    let (uvs, umap) = dedup_uv(&o.uvs);
    let mut faces: Vec<Face> = Vec::new();
    let mut k: usize = 0;
    while k < o.faces.len()
        invariant
            k <= o.faces@.len(),
            wf_object(*o),
            pmap@.len() == o.positions@.len(),
            nmap@.len() == o.normals@.len(),
            umap@.len() == o.uvs@.len(),
            forall|i: int|
                0 <= i < o.positions@.len() ==> ((#[trigger] pmap@[i]) as int) < positions@.len()
                    && positions@[pmap@[i] as int] == o.positions@[i],
            forall|i: int|
                0 <= i < o.normals@.len() ==> ((#[trigger] nmap@[i]) as int) < normals@.len()
                    && normals@[nmap@[i] as int] == o.normals@[i],
            forall|i: int|
                0 <= i < o.uvs@.len() ==> ((#[trigger] umap@[i]) as int) < uvs@.len()
                    && uvs@[umap@[i] as int] == o.uvs@[i],
            faces@.len() == k,
            forall|j: int|
                0 <= j < k ==> wf_face(#[trigger] faces@[j], positions@.len() as int,
                    normals@.len() as int, uvs@.len() as int),
            forall|j: int|
                0 <= j < k ==> {
                    let of = o.faces@[j];
                    let rf = #[trigger] faces@[j];
                    &&& positions@[rf.a.pos as int] == o.positions@[of.a.pos as int]
                    &&& normals@[rf.a.norm as int] == o.normals@[of.a.norm as int]
                    &&& uvs@[rf.a.uv as int] == o.uvs@[of.a.uv as int]
                    &&& positions@[rf.b.pos as int] == o.positions@[of.b.pos as int]
                    &&& normals@[rf.b.norm as int] == o.normals@[of.b.norm as int]
                    &&& uvs@[rf.b.uv as int] == o.uvs@[of.b.uv as int]
                    &&& positions@[rf.c.pos as int] == o.positions@[of.c.pos as int]
                    &&& normals@[rf.c.norm as int] == o.normals@[of.c.norm as int]
                    &&& uvs@[rf.c.uv as int] == o.uvs@[of.c.uv as int]
                },
        decreases o.faces@.len() - k,
    {
        let f = o.faces[k];
        assert(wf_face(o.faces@[k as int], o.positions@.len() as int, o.normals@.len() as int,
            o.uvs@.len() as int));
        let na = Corner {
            pos: pmap[f.a.pos as usize],
            norm: nmap[f.a.norm as usize],
            uv: umap[f.a.uv as usize],
        };
        let nb = Corner {
            pos: pmap[f.b.pos as usize],
            norm: nmap[f.b.norm as usize],
            uv: umap[f.b.uv as usize],
        };
        let nc = Corner {
            pos: pmap[f.c.pos as usize],
            norm: nmap[f.c.norm as usize],
            uv: umap[f.c.uv as usize],
        };
        faces.push(Face { a: na, b: nb, c: nc });
        k += 1;
    }
    let r = Object { name, submaterial_idx: o.submaterial_idx, positions, normals, uvs, faces };
    proof {
        assert forall|i: int| 0 <= i < r.positions@.len() implies wf_vec3(
            #[trigger] r.positions@[i],
        ) by {
            assert(from_input(r.positions@, o.positions@, i));
            let j = choose|j: int|
                0 <= j < o.positions@.len() && r.positions@[i] == #[trigger] o.positions@[j];
            assert(wf_vec3(o.positions@[j]));
        }
        assert forall|i: int| 0 <= i < r.normals@.len() implies wf_vec3(
            #[trigger] r.normals@[i],
        ) by {
            assert(from_input(r.normals@, o.normals@, i));
            let j = choose|j: int|
                0 <= j < o.normals@.len() && r.normals@[i] == #[trigger] o.normals@[j];
            assert(wf_vec3(o.normals@[j]));
        }
        assert forall|i: int| 0 <= i < r.uvs@.len() implies wf_uv(#[trigger] r.uvs@[i]) by {
            assert(from_input(r.uvs@, o.uvs@, i));
            let j = choose|j: int| 0 <= j < o.uvs@.len() && r.uvs@[i] == #[trigger] o.uvs@[j];
            assert(wf_uv(o.uvs@[j]));
        }
    }
    r
}

// ---------------------------------------------------------------------------
// patches and submaterial usage

/// A named object filter: keep exactly the named objects, or remove them.
#[derive(Debug)]
pub enum ModelPatch {
    Keep(Vec<Vec<char>>),
    Remove(Vec<Vec<char>>),
}

/// Why a patch could not be applied.
#[derive(Debug)]
pub enum PatchError {
    ObjectNotFound(Vec<char>),
    RemoveCountMismatch { expected: usize, actual: usize },
}

pub open spec fn name_in(ns: Seq<Vec<char>>, name: Seq<char>) -> bool {
    exists|k: int| 0 <= k < ns.len() && (#[trigger] ns[k])@ == name
}

/// Whether an object stays live under a patch.
pub open spec fn live_flag(p: Option<ModelPatch>, o: Object) -> bool {
    match p {
        Option::None => true,
        Option::Some(ModelPatch::Keep(ns)) => name_in(ns@, o.name@),
        Option::Some(ModelPatch::Remove(ns)) => !name_in(ns@, o.name@),
    }
}

/// How many objects a `Remove` patch strikes out.
pub open spec fn removed_count(objs: Seq<Object>, ns: Seq<Vec<char>>) -> int
    decreases objs.len(),
{
    if objs.len() == 0 {
        0
    } else {
        (if name_in(ns, objs[0].name@) {
            1int
        } else {
            0int
        }) + removed_count(objs.skip(1), ns)
    }
}

fn find_object(m: &Nmf, name: &Vec<char>) -> (r: Option<usize>)
    ensures
        match r {
            Option::Some(i) => i < m.objects@.len() && m.objects@[i as int].name@ == name@,
            Option::None => forall|i: int|
                0 <= i < m.objects@.len() ==> (#[trigger] m.objects@[i]).name@ != name@,
        },
{
    let mut i: usize = 0;
    while i < m.objects.len()
        invariant
            i <= m.objects@.len(),
            forall|j: int| 0 <= j < i ==> (#[trigger] m.objects@[j]).name@ != name@,
        decreases m.objects@.len() - i,
    {
        if crate::text::text_eq(&m.objects[i].name, name) {
            return Some(i);
        }
        i += 1;
    }
    None
}

fn name_in_x(ns: &Vec<Vec<char>>, name: &Vec<char>) -> (r: bool)
    ensures
        r == name_in(ns@, name@),
{
    let mut k: usize = 0;
    while k < ns.len()
        invariant
            k <= ns@.len(),
            forall|j: int| 0 <= j < k ==> (#[trigger] ns@[j])@ != name@,
        decreases ns@.len() - k,
    {
        if crate::text::text_eq(&ns[k], name) {
            return true;
        }
        k += 1;
    }
    false
}


/// Some object bears exactly the name `nm`.
pub open spec fn name_found(m: Nmf, nm: Seq<char>) -> bool {
    exists|i: int| 0 <= i < m.objects@.len() && (#[trigger] m.objects@[i]).name@ == nm
}

/// Under a `Keep` patch, every kept name has a matching object.
pub open spec fn patch_names_found(m: Nmf, p: Option<ModelPatch>) -> bool {
    match p {
        Option::Some(ModelPatch::Keep(ns)) => forall|k: int|
            0 <= k < ns@.len() ==> name_found(m, (#[trigger] ns@[k])@),
        _ => true,
    }
}

/// Under a `Remove` patch, the struck objects are counted one per name.
pub open spec fn patch_remove_exact(m: Nmf, p: Option<ModelPatch>) -> bool {
    match p {
        Option::Some(ModelPatch::Remove(ns)) => removed_count(m.objects@, ns@) == ns@.len(),
        _ => true,
    }
}

/// `nm` is one of a `Keep` patch's names and no object bears it.
pub open spec fn patch_name_missing(m: Nmf, p: Option<ModelPatch>, nm: Seq<char>) -> bool {
    match p {
        Option::Some(ModelPatch::Keep(ns)) => (exists|k: int|
            0 <= k < ns@.len() && (#[trigger] ns@[k])@ == nm) && !name_found(m, nm),
        _ => false,
    }
}

/// A `Remove` patch's names struck `actual` objects instead of `expected`.
pub open spec fn patch_count_mismatch(
    m: Nmf,
    p: Option<ModelPatch>,
    expected: int,
    actual: int,
) -> bool {
    match p {
        Option::Some(ModelPatch::Remove(ns)) => expected == ns@.len() && actual == removed_count(
            m.objects@,
            ns@,
        ) && actual != expected,
        _ => false,
    }
}

/// The live-object flags of a model under an optional patch.  `Keep` fails
/// on the first name with no matching object; `Remove` fails when the
/// number of struck objects differs from the number of names.
#[verifier::rlimit(100)]
pub fn live_objects(m: &Nmf, patch: &Option<ModelPatch>) -> (r: Result<Vec<bool>, PatchError>)
    ensures
        (match r {
            Result::Ok(flags) => flags@.len() == m.objects@.len() && (forall|i: int|
                0 <= i < m.objects@.len() ==> #[trigger] flags@[i] == live_flag(
                    *patch,
                    m.objects@[i],
                )),
            Result::Err(_) => true,
        }),
        r is Ok ==> patch_names_found(*m, *patch) && patch_remove_exact(*m, *patch),
        (match r {
            Result::Err(PatchError::ObjectNotFound(nm)) => patch_name_missing(*m, *patch, nm@),
            _ => true,
        }),
        (match r {
            Result::Err(PatchError::RemoveCountMismatch { expected, actual }) =>
                patch_count_mismatch(*m, *patch, expected as int, actual as int),
            _ => true,
        }),
{
    match patch {
        Option::None => {
            let mut flags: Vec<bool> = Vec::new();
            let mut i: usize = 0;
            while i < m.objects.len()
                invariant
                    *patch is None,
                    i <= m.objects@.len(),
                    flags@.len() == i,
                    forall|j: int| 0 <= j < i ==> #[trigger] flags@[j] == true,
                decreases m.objects@.len() - i,
            {
                flags.push(true);
                i += 1;
            }
            proof {
                assert forall|j: int| 0 <= j < m.objects@.len() implies #[trigger] flags@[j]
                    == live_flag(Option::<ModelPatch>::None, m.objects@[j]) by {
                    assert(flags@[j] == true);
                }
            }
            Ok(flags)
        },
        Option::Some(ModelPatch::Keep(ns)) => {
            {
                {
                    let mut k: usize = 0;
                    while k < ns.len()
                        invariant
                            *patch == Option::Some(ModelPatch::Keep(*ns)),
                            k <= ns@.len(),
                            forall|j: int| 0 <= j < k ==> name_found(*m, (#[trigger] ns@[j])@),
                        decreases ns@.len() - k,
                    {
                        match find_object(m, &ns[k]) {
                            Option::Some(w) => {
                                proof {
                                    assert(m.objects@[w as int].name@ == (ns@[k as int])@);
                                    assert(name_found(*m, (ns@[k as int])@));
                                }
                            },
                            Option::None => {
                                let nm = copy_name(&ns[k]);
                                proof {
                                    assert((ns@[k as int])@ == nm@);
                                    assert(forall|i: int|
                                        0 <= i < m.objects@.len() ==> (
                                        #[trigger] m.objects@[i]).name@ != nm@);
                                    assert(!name_found(*m, nm@));
                                    match patch {
                                        Option::Some(ModelPatch::Keep(ns2)) => {
                                            assert(ns2 == ns);
                                            assert((ns2@[k as int])@ == nm@);
                                            assert(exists|kk: int|
                                                0 <= kk < ns2@.len() && (#[trigger] ns2@[kk])@
                                                    == nm@);
                                        },
                                        _ => {
                                            assert(false);
                                        },
                                    }
                                    assert(patch_name_missing(*m, *patch, nm@));
                                }
                                return Err(PatchError::ObjectNotFound(nm));
                            },
                        }
                        k += 1;
                    }
                    proof {
                        assert(patch_names_found(*m, *patch));
                    }
                    let mut flags: Vec<bool> = Vec::new();
                    let mut i: usize = 0;
                    while i < m.objects.len()
                        invariant
                            *patch == Option::Some(ModelPatch::Keep(*ns)),
                            patch_names_found(*m, *patch),
                            i <= m.objects@.len(),
                            flags@.len() == i,
                            forall|j: int|
                                0 <= j < i ==> #[trigger] flags@[j] == name_in(
                                    ns@,
                                    m.objects@[j].name@,
                                ),
                        decreases m.objects@.len() - i,
                    {
                        let f = name_in_x(ns, &m.objects[i].name);
                        flags.push(f);
                        i += 1;
                    }
                    proof {
                        assert forall|j: int| 0 <= j < m.objects@.len() implies #[trigger] flags@[j]
                            == live_flag(Option::Some(ModelPatch::Keep(*ns)), m.objects@[j]) by {
                            assert(flags@[j] == name_in(ns@, m.objects@[j].name@));
                        }
                    }
                    Ok(flags)
                }
            }
        },
        Option::Some(ModelPatch::Remove(ns)) => {
            {
                {
                    let mut flags: Vec<bool> = Vec::new();
                    let mut removed: usize = 0;
                    let mut i: usize = 0;
                    proof {
                        assert(m.objects@.skip(0) =~= m.objects@);
                    }
                    while i < m.objects.len()
                        invariant
                            *patch == Option::Some(ModelPatch::Remove(*ns)),
                            i <= m.objects@.len(),
                            flags@.len() == i,
                            removed <= i,
                            forall|j: int|
                                0 <= j < i ==> #[trigger] flags@[j] == !name_in(
                                    ns@,
                                    m.objects@[j].name@,
                                ),
                            removed_count(m.objects@, ns@) == removed + removed_count(
                                m.objects@.skip(i as int),
                                ns@,
                            ),
                        decreases m.objects@.len() - i,
                    {
                        proof {
                            assert(m.objects@.skip(i as int)[0] == m.objects@[i as int]);
                            assert(m.objects@.skip(i as int).skip(1) =~= m.objects@.skip(
                                i as int + 1,
                            ));
                        }
                        let hit = name_in_x(ns, &m.objects[i].name);
                        if hit {
                            removed += 1;
                        }
                        flags.push(!hit);
                        i += 1;
                    }
                    proof {
                        assert(m.objects@.skip(m.objects@.len() as int)
                            =~= Seq::<Object>::empty());
                    }
                    if removed != ns.len() {
                        return Err(
                            PatchError::RemoveCountMismatch {
                                expected: ns.len(),
                                actual: removed,
                            },
                        );
                    }
                    proof {
                        assert forall|j: int| 0 <= j < m.objects@.len() implies #[trigger] flags@[j]
                            == live_flag(Option::Some(ModelPatch::Remove(*ns)), m.objects@[j]) by {
                            assert(flags@[j] == !name_in(ns@, m.objects@[j].name@));
                        }
                    }
                    Ok(flags)
                }
            }
        },
    }
}

/// Whether submaterial `s` is referenced by at least one live object.
pub open spec fn sub_used(m: Nmf, live: Seq<bool>, s: int) -> bool {
    exists|i: int|
        0 <= i < m.objects@.len() && live[i] && match (#[trigger] m.objects@[i]).submaterial_idx {
            Option::Some(x) => x as int == s,
            Option::None => false,
        }
}

/// Per-submaterial usage flags: used iff referenced by a live object.
pub fn compute_usage(m: &Nmf, live: &Vec<bool>) -> (r: Vec<bool>)
    requires
        live@.len() == m.objects@.len(),
    ensures
        r@.len() == m.submaterials@.len(),
        forall|s: int|
            0 <= s < m.submaterials@.len() ==> #[trigger] r@[s] == sub_used(*m, live@, s),
{
    let mut r: Vec<bool> = Vec::new();
    let mut s: usize = 0;
    while s < m.submaterials.len()
        invariant
            s <= m.submaterials@.len(),
            live@.len() == m.objects@.len(),
            r@.len() == s,
            forall|t: int| 0 <= t < s ==> #[trigger] r@[t] == sub_used(*m, live@, t),
        decreases m.submaterials@.len() - s,
    {
        let mut used = false;
        let mut i: usize = 0;
        while i < m.objects.len()
            invariant
                i <= m.objects@.len(),
                live@.len() == m.objects@.len(),
                used == (exists|j: int|
                    0 <= j < i && live@[j] && match (#[trigger] m.objects@[j]).submaterial_idx {
                        Option::Some(x) => x as int == s as int,
                        Option::None => false,
                    }),
            decreases m.objects@.len() - i,
        {
            if live[i] {
                match m.objects[i].submaterial_idx {
                    Option::Some(x) => {
                        if x as usize == s {
                            used = true;
                        }
                    },
                    Option::None => {},
                }
            }
            i += 1;
        }
        r.push(used);
        s += 1;
    }
    r
}

impl Nmf {
    /// Usage flags with every object live.
    pub fn get_submaterials_usage(&self) -> (r: Vec<bool>)
        ensures
            r@.len() == self.submaterials@.len(),
            forall|s: int|
                0 <= s < self.submaterials@.len() ==> #[trigger] r@[s] == sub_used(
                    *self,
                    Seq::new(self.objects@.len(), |i: int| true),
                    s,
                ),
    {
        let none_patch: Option<ModelPatch> = None;
        let live = match live_objects(self, &none_patch) {
            Result::Ok(f) => f,
            Result::Err(_) => {
                proof {
                    assert(false);
                }
                Vec::new()
            },
        };
        let r = compute_usage(self, &live);
        proof {
            assert forall|s: int| 0 <= s < self.submaterials@.len() implies #[trigger] r@[s]
                == sub_used(*self, Seq::new(self.objects@.len(), |i: int| true), s) by {
                let lv = Seq::new(self.objects@.len(), |i: int| true);
                assert(forall|i: int| 0 <= i < lv.len() ==> #[trigger] lv[i] == live@[i]);
                if sub_used(*self, live@, s) {
                    let w = choose|i: int|
                        0 <= i < self.objects@.len() && live@[i] && match (
                        #[trigger] self.objects@[i]).submaterial_idx {
                            Option::Some(x) => x as int == s,
                            Option::None => false,
                        };
                    assert(lv[w]);
                    assert(sub_used(*self, lv, s));
                }
                if sub_used(*self, lv, s) {
                    let w = choose|i: int|
                        0 <= i < self.objects@.len() && lv[i] && match (
                        #[trigger] self.objects@[i]).submaterial_idx {
                            Option::Some(x) => x as int == s,
                            Option::None => false,
                        };
                    assert(live@[w]);
                    assert(sub_used(*self, live@, s));
                }
            }
        }
        r
    }
}

} // verus!

verus! {

// ---------------------------------------------------------------------------
// patch files and patch application

/// A line without its trailing carriage return.
pub open spec fn trim_cr(l: Seq<char>) -> Seq<char> {
    if l.len() > 0 && l.last() == '\r' {
        l.drop_last()
    } else {
        l
    }
}

/// The lines of `s` from position `p` on.
pub open spec fn split_lines_from(s: Seq<char>, p: int) -> Seq<Seq<char>>
    decreases s.len() - p when 0 <= p <= s.len()
        via split_lines_dec
{
    if p >= s.len() {
        Seq::empty()
    } else {
        let le = crate::scan::line_end(s, p);
        seq![trim_cr(s.subrange(p, le))] + (if le >= s.len() {
            Seq::empty()
        } else {
            split_lines_from(s, le + 1)
        })
    }
}

#[via_fn]
proof fn split_lines_dec(s: Seq<char>, p: int) {
    if 0 <= p < s.len() {
        crate::scan::lemma_line_end_bounds(s, p);
    }
}

/// The lines of a whole text.
pub open spec fn split_lines(s: Seq<char>) -> Seq<Seq<char>> {
    split_lines_from(s, 0)
}

pub fn split_lines_x(s: &Vec<char>) -> (r: Vec<Vec<char>>)
    ensures
        r@.map_values(|l: Vec<char>| l@) == split_lines(s@),
{
    let mut r: Vec<Vec<char>> = Vec::new();
    let mut p: usize = 0;
    let mut at_end = s.len() == 0;
    proof {
        assert(r@.map_values(|l: Vec<char>| l@) =~= Seq::<Seq<char>>::empty());
    }
    while !at_end
        invariant
            p <= s@.len(),
            at_end ==> p >= s@.len(),
            !at_end ==> p < s@.len(),
            split_lines(s@) == r@.map_values(|l: Vec<char>| l@) + (if at_end {
                Seq::<Seq<char>>::empty()
            } else {
                split_lines_from(s@, p as int)
            }),
        decreases s@.len() - p + (if at_end { 0int } else { 1int }),
    {
        let le = crate::scan::line_end_x(s, p);
        let mut line = crate::text::range_text(s, p, le);
        if line.len() > 0 && line[line.len() - 1] == '\r' {
            let _ = line.pop();
            proof {
                assert(line@ =~= trim_cr(s@.subrange(p as int, le as int)));
            }
        } else {
            proof {
                assert(line@ =~= trim_cr(s@.subrange(p as int, le as int)));
            }
        }
        let ghost prev = r@;
        r.push(line);
        proof {
            assert(r@.map_values(|l: Vec<char>| l@) =~= prev.map_values(|l: Vec<char>| l@)
                + seq![r@.last()@]);
        }
        if le >= s.len() {
            at_end = true;
            proof {
                assert(split_lines_from(s@, p as int) == seq![
                    trim_cr(s@.subrange(p as int, le as int)),
                ] + Seq::<Seq<char>>::empty());
            }
            p = le;
        } else {
            proof {
                assert(split_lines_from(s@, p as int) == seq![
                    trim_cr(s@.subrange(p as int, le as int)),
                ] + split_lines_from(s@, le as int + 1));
            }
            p = le + 1;
            if p >= s.len() {
                at_end = true;
                proof {
                    assert(split_lines_from(s@, p as int) =~= Seq::<Seq<char>>::empty());
                }
            }
        }
    }
    r
}

/// The nonempty lines of a line list.
pub open spec fn nonempty_lines(ls: Seq<Seq<char>>) -> Seq<Seq<char>>
    decreases ls.len(),
{
    if ls.len() == 0 {
        Seq::empty()
    } else {
        (if ls[0].len() > 0 {
            seq![ls[0]]
        } else {
            Seq::empty()
        }) + nonempty_lines(ls.skip(1))
    }
}

/// Why a patch file could not be parsed.
#[derive(Clone, Copy, PartialEq, Eq, Structural, Debug)]
pub enum PatchParseError {
    Empty,
    UnknownKind,
}

impl ModelPatch {
    /// Parse a patch file: a `KEEP` or `REMOVE` head line, then one object
    /// name per nonempty line.
    pub fn parse(text: &Vec<char>) -> (r: Result<ModelPatch, PatchParseError>)
        ensures
            ({
                let ls = split_lines(text@);
                match r {
                    Result::Ok(ModelPatch::Keep(ns)) => ls.len() >= 1 && ls[0] == "KEEP"@
                        && ns@.map_values(|n: Vec<char>| n@) == nonempty_lines(ls.skip(1)),
                    Result::Ok(ModelPatch::Remove(ns)) => ls.len() >= 1 && ls[0] == "REMOVE"@
                        && ns@.map_values(|n: Vec<char>| n@) == nonempty_lines(ls.skip(1)),
                    Result::Err(PatchParseError::Empty) => ls.len() == 0,
                    Result::Err(PatchParseError::UnknownKind) => ls.len() >= 1 && ls[0]
                        != "KEEP"@ && ls[0] != "REMOVE"@,
                }
            }),
    {
        let ghost ls = split_lines(text@);
        let mut lines = split_lines_x(text);
        if lines.len() == 0 {
            return Err(PatchParseError::Empty);
        }
        let head = lines.remove(0);
        let ghost rest = ls.skip(1);
        proof {
            assert(head@ == ls[0]);
            assert(forall|k: int|
                0 <= k < ls.len() - 1 ==> (#[trigger] lines@[k])@ == ls[k + 1]);
        }
        let keep = text_eq(&head, &chars_of("KEEP"));
        let remove = text_eq(&head, &chars_of("REMOVE"));
        if !keep && !remove {
            return Err(PatchParseError::UnknownKind);
        }
        let mut names: Vec<Vec<char>> = Vec::new();
        let n = lines.len();
        let mut i: usize = 0;
        proof {
            assert(rest.skip(0) =~= rest);
            assert(names@.map_values(|q: Vec<char>| q@) =~= Seq::<Seq<char>>::empty());
        }
        while i < n
            invariant
                i <= n == lines@.len(),
                n == rest.len(),
                forall|k: int| 0 <= k < n ==> (#[trigger] lines@[k])@ == rest[k],
                nonempty_lines(rest) == names@.map_values(|q: Vec<char>| q@) + nonempty_lines(
                    rest.skip(i as int),
                ),
            decreases n - i,
        {
            proof {
                assert(rest.skip(i as int)[0] == rest[i as int]);
                assert(rest.skip(i as int).skip(1) =~= rest.skip(i as int + 1));
            }
            if lines[i].len() > 0 {
                let nm = range_text(&lines[i], 0, lines[i].len());
                proof {
                    assert(nm@ =~= rest[i as int]);
                }
                let ghost prev = names@;
                names.push(nm);
                proof {
                    assert(names@.map_values(|q: Vec<char>| q@) =~= prev.map_values(
                        |q: Vec<char>| q@,
                    ) + seq![names@.last()@]);
                }
            }
            i += 1;
        }
        proof {
            assert(nonempty_lines(rest.skip(n as int)) =~= Seq::<Seq<char>>::empty());
        }
        if keep {
            Ok(ModelPatch::Keep(names))
        } else {
            Ok(ModelPatch::Remove(names))
        }
    }
}

/// The objects a patch leaves live, in order.
pub open spec fn filter_live(objs: Seq<Object>, p: Option<ModelPatch>) -> Seq<Object>
    decreases objs.len(),
{
    if objs.len() == 0 {
        Seq::empty()
    } else {
        (if live_flag(p, objs[0]) {
            seq![objs[0]]
        } else {
            Seq::empty()
        }) + filter_live(objs.skip(1), p)
    }
}

/// Apply a patch: drop every object the patch strikes out, keeping the
/// submaterial table; fails exactly when the patch does not fit, and a
/// well-formed model stays well-formed.
pub fn apply_patch(m: Nmf, patch: &Option<ModelPatch>) -> (r: Result<Nmf, PatchError>)
    ensures
        match r {
            Result::Ok(out) => {
                &&& out.submaterials == m.submaterials
                &&& out.objects@ == filter_live(m.objects@, *patch)
                &&& patch_names_found(m, *patch)
                &&& patch_remove_exact(m, *patch)
                &&& (wf_nmf(m) ==> wf_nmf(out))
            },
            Result::Err(PatchError::ObjectNotFound(nm)) => patch_name_missing(m, *patch, nm@),
            Result::Err(PatchError::RemoveCountMismatch { expected, actual }) =>
                patch_count_mismatch(m, *patch, expected as int, actual as int),
        },
{
    let flags = match live_objects(&m, patch) {
        Result::Ok(f) => f,
        Result::Err(e) => {
            return Err(e);
        },
    };
    let ghost gm = m;
    let ghost all = m.objects@;
    let mut objs = m.objects;
    let mut kept: Vec<Object> = Vec::new();
    let n = flags.len();
    let mut i: usize = 0;
    proof {
        assert(all.skip(0) =~= all);
    }
    while i < n
        invariant
            i <= n == all.len(),
            gm.objects@ == all,
            objs@.len() == n - i,
            forall|k: int| 0 <= k < n - i ==> #[trigger] objs@[k] == all[k + i],
            flags@.len() == n,
            forall|k: int| 0 <= k < n ==> #[trigger] flags@[k] == live_flag(*patch, all[k]),
            filter_live(all, *patch) == kept@ + filter_live(all.skip(i as int), *patch),
            kept@.len() <= i,
            wf_nmf(gm) ==> (forall|k: int|
                0 <= k < kept@.len() ==> wf_object(#[trigger] kept@[k]) && (match kept@[k]
                    .submaterial_idx {
                    Option::Some(x) => (x as int) < gm.submaterials@.len(),
                    Option::None => true,
                })),
        decreases n - i,
    {
        let ghost old_objs = objs@;
        let o = objs.remove(0);
        proof {
            assert(o == all[i as int]);
            assert(forall|k: int|
                0 <= k < old_objs.len() - 1 ==> #[trigger] objs@[k] == old_objs[k + 1]);
            assert(all.skip(i as int)[0] == all[i as int]);
            assert(all.skip(i as int).skip(1) =~= all.skip(i as int + 1));
        }
        if flags[i] {
            let ghost prev = kept@;
            kept.push(o);
            proof {
                assert(kept@ =~= prev + seq![all[i as int]]);
                assert(kept@ + filter_live(all.skip(i as int + 1), *patch) =~= prev + (seq![
                    all[i as int],
                ] + filter_live(all.skip(i as int + 1), *patch)));
                if wf_nmf(gm) {
                    assert(wf_object(gm.objects@[i as int]));
                }
            }
        }
        i += 1;
    }
    proof {
        assert(all.skip(n as int) =~= Seq::<Object>::empty());
        assert(filter_live(all, *patch) =~= kept@);
    }
    let out = Nmf { objects: kept, submaterials: m.submaterials };
    proof {
        if wf_nmf(gm) {
            assert(out.submaterials@ == gm.submaterials@);
            assert(wf_nmf(out));
        }
    }
    Ok(out)
}

} // verus!
