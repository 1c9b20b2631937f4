//! Parsing, serialization and the minimal-diff writer.

use modtool::building;
use modtool::ini::IniToken as _;
use modtool::fixp;
use modtool::ini::IniTokenState;
use modtool::material;
use modtool::render;

fn t(s: &str) -> Vec<char> {
    s.chars().collect()
}

fn s(v: &Vec<char>) -> String {
    v.iter().collect()
}

#[test]
fn roundtrip_identity_material() {
    let src = "# header comment\r\n$TEXTURE 0 foo.dds\r\njunk line\r\n$SUBMATERIAL roof\r\n";
    let f = material::parse_mtl(t(src)).unwrap();
    let out = f.write_to();
    assert_eq!(s(&out), src);
}

#[test]
fn roundtrip_identity_building() {
    let src = "TYPE_FACTORY\r\nWORKERS_NEEDED 15\r\nSTORAGE RESOURCE_TRANSPORT_COVERED 12.5\r\n";
    let f = building::parse_building_ini(t(src)).unwrap();
    let out = f.write_to();
    assert_eq!(s(&out), src);
}

#[test]
fn roundtrip_identity_render() {
    let src = " MODEL model.nmf\r\n MATERIAL main.mtl\r\n MODEL_LOD lod.nmf 150\r\n";
    let f = render::parse_renderconfig_ini(t(src)).unwrap();
    let out = f.write_to();
    assert_eq!(s(&out), src);
}

#[test]
fn localized_diff_single_token() {
    let src = "leading text\r\nWORKERS_NEEDED 15\r\ntrailing text\r\n";
    let mut f = building::parse_building_ini(t(src)).unwrap();
    assert_eq!(f.tokens().len(), 1);
    let start = f.toks[0].0.start;
    let end = f.toks[0].0.end;
    f.tokens_mut()[0].1.modify(Some(building::Token::WorkersNeeded(99)));
    let out = s(&f.write_to());
    // every character outside the replaced range is unchanged
    assert_eq!(&out[..start], &src[..start]);
    assert!(out.ends_with(&src[end..]));
    assert_eq!(out, format!("{}WORKERS_NEEDED 99{}", &src[..start], &src[end..]));
}

#[test]
fn modify_none_keeps_token() {
    let src = "NAME 4\r\n";
    let mut f = building::parse_building_ini(t(src)).unwrap();
    f.tokens_mut()[0].1.modify(None);
    assert_eq!(s(&f.write_to()), src);
}

#[test]
fn texture_paths_resolve_per_dialect_rule() {
    // `$TEXTURE` roots at the stock assets, `$TEXTURE_MTL` at the
    // material file's own directory.
    let src = "$TEXTURE 0 foo.dds\r\n$TEXTURE_MTL 1 bar.dds\r\n";
    let f = material::parse_mtl(t(src)).unwrap();
    let paths = f.get_texture_paths(&t("/stock"), &t("/mods/thing"));
    assert_eq!(paths.len(), 2);
    assert_eq!(s(&paths[0]), "/stock/foo.dds");
    assert_eq!(s(&paths[1]), "/mods/thing/bar.dds");
}

#[test]
fn strict_parse_collects_every_failure() {
    // both bad directives are reported, not just the first
    let src = "$TEXTURE x foo.dds\n$TEXTURE 1 ok.dds\n$TEXTURE y bar.dds\n";
    let errs = match material::parse_mtl(t(src)) {
        Err(e) => e,
        Ok(_) => panic!("expected failures"),
    };
    assert_eq!(errs.len(), 2);
    assert_eq!(s(&errs[0].1.chunk), "$TEXTURE x foo.dds");
    assert_eq!(s(&errs[1].1.chunk), "$TEXTURE y bar.dds");
}

#[test]
fn unknown_directives_pass_through() {
    let src = "SOMETHING_ELSE 5\r\nblah\r\n";
    let f = building::parse_building_ini(t(src)).unwrap();
    assert_eq!(f.tokens().len(), 0);
    assert_eq!(s(&f.write_to()), src);
}

#[test]
fn building_tokens_decode() {
    let src = "TYPE_FACTORY\r\nSUBTYPE_SOVIET\r\nNAME_STR \"Old Mill\"\r\nCIVIL_BUILDING\r\n";
    let f = building::parse_building_ini(t(src)).unwrap();
    let toks = f.tokens();
    assert_eq!(toks.len(), 4);
    assert!(matches!(toks[0].1.token(), building::Token::BuildingType(building::BuildingType::Factory)));
    assert!(matches!(toks[1].1.token(), building::Token::BuildingSubtype(building::BuildingSubtype::Soviet)));
    match toks[2].1.token() {
        building::Token::NameStr(q) => assert_eq!(s(q.0.value()), "Old Mill"),
        _ => panic!("expected a NAME_STR token"),
    }
    assert!(matches!(toks[3].1.token(), building::Token::CivilBuilding));
}

#[test]
fn connection_token_spans_lines() {
    let src = "CONNECTION_PEDESTRIAN\r\n1.5 0 -2\r\n3 4 5.25\r\n";
    let f = building::parse_building_ini(t(src)).unwrap();
    let toks = f.tokens();
    assert_eq!(toks.len(), 1);
    match toks[0].1.token() {
        building::Token::ConnectionPedestrian((a, b)) => {
            assert_eq!((a.x, a.y, a.z), (15000, 0, -20000));
            assert_eq!((b.x, b.y, b.z), (30000, 40000, 52500));
        },
        _ => panic!("expected a pedestrian connection"),
    }
}

#[test]
fn unknown_enum_word_is_an_error() {
    let src = "STORAGE RESOURCE_TRANSPORT_NOPE 5\r\n";
    let errs = match building::parse_building_ini(t(src)) {
        Err(e) => e,
        Ok(_) => panic!("expected a failure"),
    };
    assert_eq!(errs.len(), 1);
}

#[test]
fn fixed_point_parse_and_format() {
    assert_eq!(fixp::parse_fixed(&t("1.5")), Some(15000));
    assert_eq!(fixp::parse_fixed(&t("-0.25")), Some(-2500));
    assert_eq!(fixp::parse_fixed(&t("12")), Some(120000));
    assert_eq!(fixp::parse_fixed(&t("1.23456")), None);
    assert_eq!(fixp::parse_fixed(&t("x")), None);
    assert_eq!(fixp::parse_fixed(&t("")), None);
    assert_eq!(s(&fixp::format_fixed(15000)), "1.5000");
    assert_eq!(s(&fixp::format_fixed(-2500)), "-0.2500");
    assert_eq!(s(&fixp::format_fixed(0)), "0.0000");
    assert_eq!(fixp::parse_u32(&t("42")), Some(42));
    assert_eq!(fixp::parse_u32(&t("4294967296")), None);
    assert_eq!(fixp::parse_u32(&t("007")), Some(7));
}

#[test]
fn scale_coord_truncates_toward_zero() {
    assert_eq!(fixp::scale_coord(15000, 20000), Some(30000));
    assert_eq!(fixp::scale_coord(-15000, 5000), Some(-7500));
    assert_eq!(fixp::scale_coord(3, 3), Some(0));
    assert_eq!(fixp::scale_coord(-3, 3), Some(0));
}

#[test]
fn serialize_storage_token() {
    let tok = building::Token::Storage((building::StorageCargoType::Covered, 125000));
    assert_eq!(s(&tok.serialize()), "STORAGE RESOURCE_TRANSPORT_COVERED 12.5000");
    let tok = building::Token::Name(7);
    assert_eq!(s(&tok.serialize()), "NAME 7");
    let tok = building::Token::BuildingType(building::BuildingType::Factory);
    assert_eq!(s(&tok.serialize()), "TYPE_FACTORY");
}

#[test]
fn serialize_connection_is_multiline() {
    let a = building::Point3f { x: 15000, y: 0, z: -20000 };
    let b = building::Point3f { x: 30000, y: 40000, z: 52500 };
    let tok = building::Token::ConnectionPedestrian((a, b));
    assert_eq!(
        s(&tok.serialize()),
        "CONNECTION_PEDESTRIAN\r\n1.5000 0.0000 -2.0000\r\n3.0000 4.0000 5.2500",
    );
}

#[test]
fn maybe_scale_scales_connections_only() {
    let a = building::Point3f { x: 10000, y: 20000, z: 30000 };
    let b = building::Point3f { x: 0, y: 0, z: 0 };
    let tok = building::Token::ConnectionRoad((a, b));
    match tok.maybe_scale(20000) {
        Some(building::Token::ConnectionRoad((sa, _))) => {
            assert_eq!((sa.x, sa.y, sa.z), (20000, 40000, 60000));
        },
        _ => panic!("expected a scaled road connection"),
    }
    assert!(building::Token::Name(1).maybe_scale(20000).is_none());
}

#[test]
fn states_wrap_tokens() {
    let st = IniTokenState::Original(building::Token::Name(3));
    assert!(matches!(st.token(), building::Token::Name(3)));
    let mut st = IniTokenState::Original(building::Token::Name(3));
    st.modify(Some(building::Token::Name(9)));
    assert!(matches!(st, IniTokenState::Modified(building::Token::Name(9))));
}
