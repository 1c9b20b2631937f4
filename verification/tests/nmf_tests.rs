//! The model codec, the geometric transforms, and patches.

use modtool::nmf::{
    apply_patch, compute_usage, decode, encode, live_objects, mirror_z, optimize, scale, Corner,
    Face, ModelPatch, Nmf, Object, PatchError, PatchParseError, SubMaterial, UvCoord, Vec3,
};

fn t(s: &str) -> Vec<char> {
    s.chars().collect()
}

fn v3(x: i64, y: i64, z: i64) -> Vec3 {
    Vec3 { x, y, z }
}

fn face(p: [u32; 3], n: [u32; 3], u: [u32; 3]) -> Face {
    Face {
        a: Corner { pos: p[0], norm: n[0], uv: u[0] },
        b: Corner { pos: p[1], norm: n[1], uv: u[1] },
        c: Corner { pos: p[2], norm: n[2], uv: u[2] },
    }
}

fn sample_object(name: &str, sub: Option<u32>) -> Object {
    Object {
        name: t(name),
        submaterial_idx: sub,
        positions: vec![v3(10000, 0, -20000), v3(0, 15000, 25000), v3(5000, 5000, 5000)],
        normals: vec![v3(0, 10000, 0), v3(0, 0, -10000)],
        uvs: vec![UvCoord { u: 0, v: 10000 }, UvCoord { u: 5000, v: 5000 }],
        faces: vec![face([0, 1, 2], [0, 1, 0], [0, 1, 1])],
    }
}

fn sample_mesh() -> Nmf {
    Nmf {
        objects: vec![sample_object("wall_a", Some(0)), sample_object("roof_obj", Some(1))],
        submaterials: vec![SubMaterial { name: t("concrete") }, SubMaterial { name: t("roof") }],
    }
}

#[test]
fn codec_roundtrip() {
    let m = sample_mesh();
    let bytes = encode(&m);
    let (d, used) = decode(&bytes).unwrap();
    assert_eq!(used, bytes.len());
    assert_eq!(d.objects.len(), 2);
    assert_eq!(d.submaterials.len(), 2);
    let s: String = d.objects[0].name.iter().collect();
    assert_eq!(s, "wall_a");
    assert_eq!(d.objects[0].submaterial_idx, Some(0));
    assert_eq!(d.objects[0].positions, m.objects[0].positions);
    assert_eq!(d.objects[0].normals, m.objects[0].normals);
    assert_eq!(d.objects[0].uvs, m.objects[0].uvs);
    assert_eq!(d.objects[0].faces, m.objects[0].faces);
}

#[test]
fn decode_reports_consumed_prefix() {
    let m = sample_mesh();
    let mut bytes = encode(&m);
    let clean_len = bytes.len();
    bytes.push(0xab);
    bytes.push(0xcd);
    let (_, used) = decode(&bytes).unwrap();
    // the caller sees the two trailing bytes were not part of the model
    assert_eq!(used, clean_len);
    assert_eq!(bytes.len() - used, 2);
}

#[test]
fn decode_rejects_truncated_input() {
    let m = sample_mesh();
    let bytes = encode(&m);
    assert!(decode(&bytes[..bytes.len() - 3].to_vec()).is_err());
    assert!(decode(&vec![1, 2]).is_err());
}

#[test]
fn decode_rejects_bad_face_index() {
    // patch a valid buffer: the last 36 bytes are the final object's face
    let good = encode(&sample_mesh());
    let mut bad = good.clone();
    let n = bad.len();
    bad[n - 36] = 99;
    assert!(decode(&bad).is_err());
}

#[test]
fn scale_composition_close_to_single_scale() {
    let m0 = sample_mesh();
    let mut m1 = sample_mesh();
    assert!(scale(&mut m1, 15000)); // x1.5
    let mut m2 = m1;
    assert!(scale(&mut m2, 20000)); // then x2
    let mut m3 = sample_mesh();
    assert!(scale(&mut m3, 30000)); // x3 in one step
    for (o2, o3) in m2.objects.iter().zip(m3.objects.iter()) {
        for (p2, p3) in o2.positions.iter().zip(o3.positions.iter()) {
            assert!((p2.x - p3.x).abs() <= 1);
            assert!((p2.y - p3.y).abs() <= 1);
            assert!((p2.z - p3.z).abs() <= 1);
        }
        // normals are bit-identical through every scale
        assert_eq!(o2.normals, o3.normals);
        assert_eq!(o2.normals, m0.objects[0].normals);
        break;
    }
}

#[test]
fn scale_leaves_normals_and_faces() {
    let m0 = sample_mesh();
    let mut m = sample_mesh();
    assert!(scale(&mut m, 25000));
    assert_eq!(m.objects[0].positions[0], v3(25000, 0, -50000));
    assert_eq!(m.objects[0].normals, m0.objects[0].normals);
    assert_eq!(m.objects[0].faces, m0.objects[0].faces);
    assert_eq!(m.objects[0].uvs, m0.objects[0].uvs);
}

#[test]
fn mirror_involution() {
    let m0 = sample_mesh();
    let mut m = sample_mesh();
    mirror_z(&mut m);
    assert_eq!(m.objects[0].positions[0], v3(10000, 0, 20000));
    assert_eq!(m.objects[0].normals[1], v3(0, 0, 10000));
    // winding is reversed
    assert_eq!(m.objects[0].faces[0].b, m0.objects[0].faces[0].c);
    mirror_z(&mut m);
    assert_eq!(m.objects[0].positions, m0.objects[0].positions);
    assert_eq!(m.objects[0].normals, m0.objects[0].normals);
    assert_eq!(m.objects[0].faces, m0.objects[0].faces);
}

#[test]
fn optimize_deduplicates_and_keeps_geometry() {
    let o = Object {
        name: t("thing"),
        submaterial_idx: None,
        positions: vec![v3(1, 2, 3), v3(1, 2, 3), v3(4, 5, 6)],
        normals: vec![v3(0, 10000, 0), v3(0, 10000, 0), v3(0, 10000, 0)],
        uvs: vec![UvCoord { u: 1, v: 2 }, UvCoord { u: 1, v: 2 }],
        faces: vec![face([0, 1, 2], [0, 1, 2], [0, 1, 1])],
    };
    let r = optimize(&o);
    assert!(r.positions.len() <= o.positions.len());
    assert!(r.normals.len() <= o.normals.len());
    assert!(r.uvs.len() <= o.uvs.len());
    assert_eq!(r.positions.len(), 2);
    assert_eq!(r.normals.len(), 1);
    assert_eq!(r.uvs.len(), 1);
    assert_eq!(r.faces.len(), o.faces.len());
    // re-expanded geometry per face corner is unchanged
    for (rf, of) in r.faces.iter().zip(o.faces.iter()) {
        for (rc, oc) in [(rf.a, of.a), (rf.b, of.b), (rf.c, of.c)] {
            assert_eq!(r.positions[rc.pos as usize], o.positions[oc.pos as usize]);
            assert_eq!(r.normals[rc.norm as usize], o.normals[oc.norm as usize]);
            assert_eq!(r.uvs[rc.uv as usize], o.uvs[oc.uv as usize]);
        }
    }
}

fn usage_mesh() -> Nmf {
    // three objects; only A references submaterial 0
    let mut a = sample_object("A", Some(0));
    a.positions = vec![v3(1, 1, 1)];
    a.normals = vec![v3(0, 1, 0)];
    a.uvs = vec![UvCoord { u: 0, v: 0 }];
    a.faces = vec![];
    let mut b = sample_object("B", None);
    b.faces = vec![];
    let mut c = sample_object("C", None);
    c.faces = vec![];
    Nmf {
        objects: vec![a, b, c],
        submaterials: vec![SubMaterial { name: t("mat0") }],
    }
}

#[test]
fn usage_follows_live_objects() {
    let m = usage_mesh();
    let patch = Some(ModelPatch::Remove(vec![t("B"), t("C")]));
    let live = live_objects(&m, &patch).unwrap();
    assert_eq!(live, vec![true, false, false]);
    let usage = compute_usage(&m, &live);
    assert_eq!(usage, vec![true]);

    let patch = Some(ModelPatch::Remove(vec![t("A")]));
    let live = live_objects(&m, &patch).unwrap();
    assert_eq!(live, vec![false, true, true]);
    let usage = compute_usage(&m, &live);
    assert_eq!(usage, vec![false]);
}

#[test]
fn keep_patch_selects_named_objects() {
    let m = usage_mesh();
    let patch = Some(ModelPatch::Keep(vec![t("B")]));
    let live = live_objects(&m, &patch).unwrap();
    assert_eq!(live, vec![false, true, false]);
}

#[test]
fn keep_patch_missing_object_is_reported() {
    let m = usage_mesh();
    let patch = Some(ModelPatch::Keep(vec![t("missing_one")]));
    match live_objects(&m, &patch) {
        Err(PatchError::ObjectNotFound(nm)) => {
            let s: String = nm.iter().collect();
            assert_eq!(s, "missing_one");
        },
        _ => panic!("expected an object-not-found failure"),
    }
}

#[test]
fn remove_patch_count_mismatch_is_reported() {
    let m = usage_mesh();
    let patch = Some(ModelPatch::Remove(vec![t("B"), t("nope")]));
    match live_objects(&m, &patch) {
        Err(PatchError::RemoveCountMismatch { expected, actual }) => {
            assert_eq!(expected, 2);
            assert_eq!(actual, 1);
        },
        _ => panic!("expected a count mismatch"),
    }
}

#[test]
fn no_patch_keeps_everything_live() {
    let m = usage_mesh();
    let live = live_objects(&m, &None).unwrap();
    assert_eq!(live, vec![true, true, true]);
}

#[test]
fn apply_patch_filters_objects() {
    let m = usage_mesh();
    let patch = Some(ModelPatch::Remove(vec![t("B")]));
    let r = apply_patch(m, &patch).unwrap();
    assert_eq!(r.objects.len(), 2);
    let names: Vec<String> = r.objects.iter().map(|o| o.name.iter().collect()).collect();
    assert_eq!(names, vec!["A".to_string(), "C".to_string()]);
    assert_eq!(r.submaterials.len(), 1);
}

#[test]
fn patch_file_parses() {
    match ModelPatch::parse(&t("KEEP\r\nwall_a\r\n\r\nroof_obj\r\n")) {
        Ok(ModelPatch::Keep(ns)) => {
            let names: Vec<String> = ns.iter().map(|n| n.iter().collect()).collect();
            assert_eq!(names, vec!["wall_a".to_string(), "roof_obj".to_string()]);
        },
        _ => panic!("expected a keep patch"),
    }
    assert!(matches!(ModelPatch::parse(&t("REMOVE\nx\n")), Ok(ModelPatch::Remove(_))));
    assert!(matches!(ModelPatch::parse(&t("")), Err(PatchParseError::Empty)));
    assert!(matches!(ModelPatch::parse(&t("FROB\nx\n")), Err(PatchParseError::UnknownKind)));
}

#[test]
fn scale_refuses_overflow_and_keeps_mesh() {
    let mut m = sample_mesh();
    m.objects[0].positions[0].x = i64::MAX / 2;
    let before = m.objects[0].positions.clone();
    // times three overflows the representation
    assert!(!scale(&mut m, 30000));
    assert_eq!(m.objects[0].positions, before);
}

#[test]
fn submaterial_usage_of_whole_model() {
    let m = sample_mesh();
    let usage = m.get_submaterials_usage();
    assert_eq!(usage, vec![true, true]);
}

#[test]
fn decode_rejects_bad_name_byte() {
    let good = encode(&sample_mesh());
    let mut bad = good.clone();
    // the first submaterial's name starts after the table count and the
    // name length; a control byte is not a valid name character
    bad[8] = 0x01;
    assert!(decode(&bad).is_err());
}

#[test]
fn decode_rejects_reserved_coordinate_word() {
    // submaterial table empty; one object "A" with one all-zero position
    let mut bytes: Vec<u8> = Vec::new();
    bytes.extend_from_slice(&[0, 0, 0, 0]); // no submaterials
    bytes.extend_from_slice(&[1, 0, 0, 0]); // one object
    bytes.extend_from_slice(&[1, 0, 0, 0]); // name length 1
    bytes.push(b'A');
    bytes.extend_from_slice(&[0xff, 0xff, 0xff, 0xff]); // no submaterial
    bytes.extend_from_slice(&[1, 0, 0, 0]); // one position
    bytes.extend_from_slice(&[0; 24]); // all-zero words are reserved
    assert!(decode(&bytes).is_err());
}
