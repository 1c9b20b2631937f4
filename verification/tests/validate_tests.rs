//! Cross-validation of configuration against the model, and the batch
//! batch processing around it.

use modtool::building;
use modtool::building_def::{
    concat_parse_errors, push_buildingini_errors, push_mtl_errors, push_textures, BuildingDef,
    BuildingError, LoadedIni, ModelLoad, MtlFile, SourceData, Violation,
};
use modtool::data::{
    fill_skin_textures, get_skins, get_stock_building, get_texture_tokens, parse_ini_to_def,
    path_option_valid,
    resolve_prefixed_path, source_to_def, IniToken, MaterialDef, ModelDef, PathPrefix,
    RenderConfig, Settings, SourceOverrides, StockBuilding, StockBuildings,
};
use modtool::material;
use modtool::modpack::{
    parse_render_ref, process_source, read_validate_sources, resolve_source_path, RenderRef,
    SourceInput,
};
use modtool::nmf::{Nmf, Object, SubMaterial, UvCoord, Vec3};
use modtool::paths::{path_join, path_parent};
use modtool::render;

fn t(s: &str) -> Vec<char> {
    s.chars().collect()
}

fn s(v: &Vec<char>) -> String {
    v.iter().collect()
}

fn settings() -> Settings {
    Settings { path_stock: t("/stock"), path_workshop: t("/workshop") }
}

fn mesh_with(names: &[(&str, Option<u32>)], subs: &[&str]) -> Nmf {
    let objects = names
        .iter()
        .map(|(n, sub)| Object {
            name: t(n),
            submaterial_idx: *sub,
            positions: vec![Vec3 { x: 1, y: 2, z: 3 }],
            normals: vec![Vec3 { x: 0, y: 10000, z: 0 }],
            uvs: vec![UvCoord { u: 0, v: 0 }],
            faces: vec![],
        })
        .collect();
    let submaterials = subs.iter().map(|n| SubMaterial { name: t(n) }).collect();
    Nmf { objects, submaterials }
}

#[test]
fn missing_texture_token_for_used_submaterial() {
    // the model uses "roof", the material never declares it
    let model = mesh_with(&[("wall", Some(0))], &["roof"]);
    let mtl = material::parse_mtl(t("$TEXTURE 0 base.dds\r\n")).unwrap();
    let mut errors: Vec<Violation> = Vec::new();
    push_mtl_errors(&mtl, &model, &mut errors, MtlFile::Primary);
    assert_eq!(errors.len(), 1);
    match &errors[0] {
        Violation::SubmaterialNotCovered { name, file } => {
            assert_eq!(s(name), "roof");
            assert_eq!(*file, MtlFile::Primary);
        },
        _ => panic!("expected a submaterial violation"),
    }
    // declaring the submaterial empties the report
    let fixed = material::parse_mtl(t("$TEXTURE 0 base.dds\r\n$SUBMATERIAL roof\r\n")).unwrap();
    let mut errors: Vec<Violation> = Vec::new();
    push_mtl_errors(&fixed, &model, &mut errors, MtlFile::Primary);
    assert_eq!(errors.len(), 0);
}

#[test]
fn unused_submaterial_needs_no_token() {
    let model = mesh_with(&[("wall", None)], &["roof"]);
    let mtl = material::parse_mtl(t("$TEXTURE 0 base.dds\r\n")).unwrap();
    let mut errors: Vec<Violation> = Vec::new();
    push_mtl_errors(&mtl, &model, &mut errors, MtlFile::Primary);
    assert_eq!(errors.len(), 0);
}

#[test]
fn node_reference_must_match_exactly() {
    let model = mesh_with(&[("node_B", None)], &[]);
    let ini = building::parse_building_ini(t("COST_WORK_BUILDING_NODE node_A\r\n")).unwrap();
    let mut errors: Vec<Violation> = Vec::new();
    push_buildingini_errors(&ini, &model, &mut errors);
    assert_eq!(errors.len(), 1);
    match &errors[0] {
        Violation::NodeNotFound { token_text } => {
            assert_eq!(s(token_text), "COST_WORK_BUILDING_NODE node_A");
        },
        _ => panic!("expected a node violation"),
    }
}

#[test]
fn node_keyword_matches_by_prefix() {
    let model = mesh_with(&[("wall_left", None), ("roof", None)], &[]);
    let ini = building::parse_building_ini(t("COST_WORK_BUILDING_KEYWORD wall_\r\n")).unwrap();
    let mut errors: Vec<Violation> = Vec::new();
    push_buildingini_errors(&ini, &model, &mut errors);
    assert_eq!(errors.len(), 0);
    // no object starts with the keyword: one violation citing the token
    let model = mesh_with(&[("roof", None)], &[]);
    let mut errors: Vec<Violation> = Vec::new();
    push_buildingini_errors(&ini, &model, &mut errors);
    assert_eq!(errors.len(), 1);
}

fn render_text() -> &'static str {
    " MODEL model.nmf\r\n MATERIAL main.mtl\r\n MATERIALEMISSIVE glow.mtl\r\n"
}

#[test]
fn from_config_resolves_paths() {
    let rini = render::parse_renderconfig_ini(t(render_text())).unwrap();
    let def = BuildingDef::from_config(&t("/mods/b1/building.ini"), &t("/mods/b1/renderconfig.ini"), &rini)
        .unwrap();
    assert_eq!(s(&def.model), "/mods/b1/model.nmf");
    assert_eq!(s(&def.material), "/mods/b1/main.mtl");
    assert_eq!(s(&def.material_e.clone().unwrap()), "/mods/b1/glow.mtl");
    assert!(def.model_lod.is_none());
    assert!(def.textures.is_empty());
}

#[test]
fn from_config_requires_model_and_material() {
    let rini = render::parse_renderconfig_ini(t(" MATERIAL main.mtl\r\n")).unwrap();
    assert!(matches!(
        BuildingDef::from_config(&t("a"), &t("b"), &rini),
        Err(BuildingError::ModelMissing)
    ));
    let rini = render::parse_renderconfig_ini(t(" MODEL model.nmf\r\n")).unwrap();
    assert!(matches!(
        BuildingDef::from_config(&t("a"), &t("b"), &rini),
        Err(BuildingError::MaterialMissing)
    ));
}

fn clean_sources(def: &BuildingDef, model: Nmf) -> SourceData {
    SourceData {
        building_ini_exists: true,
        renderconfig_exists: true,
        model_exists: true,
        model_lod_exists: true,
        model_lod2_exists: true,
        model_e_exists: true,
        material_exists: true,
        material_e_exists: def.material_e.is_some(),
        textures_exist: vec![true; def.textures.len()],
        model: ModelLoad::Loaded(model),
        building_ini: LoadedIni::Parsed(
            building::parse_building_ini(t("TYPE_FACTORY\r\n")).unwrap(),
        ),
        material: LoadedIni::Parsed(
            material::parse_mtl(t("$TEXTURE 0 base.dds\r\n$SUBMATERIAL roof\r\n")).unwrap(),
        ),
        material_e: LoadedIni::Parsed(
            material::parse_mtl(t("$TEXTURE 0 glow.dds\r\n$SUBMATERIAL roof\r\n")).unwrap(),
        ),
    }
}

#[test]
fn parse_and_validate_clean() {
    let rini = render::parse_renderconfig_ini(t(render_text())).unwrap();
    let def = BuildingDef::from_config(&t("bi"), &t("rc"), &rini).unwrap();
    let model = mesh_with(&[("wall", Some(0))], &["roof"]);
    assert!(def.parse_and_validate(clean_sources(&def, model)).is_ok());
}

#[test]
fn parse_and_validate_collects_failures() {
    let rini = render::parse_renderconfig_ini(t(render_text())).unwrap();
    let def = BuildingDef::from_config(&t("bi"), &t("rc"), &rini).unwrap();
    let model = mesh_with(&[("wall", Some(0))], &["roof"]);
    let mut files = clean_sources(&def, model);
    files.model_exists = false;
    // also break the material coverage
    files.material = LoadedIni::Parsed(material::parse_mtl(t("$TEXTURE 0 b.dds\r\n")).unwrap());
    let errs = def.parse_and_validate(files).unwrap_err();
    assert_eq!(errs.len(), 2);
}

#[test]
fn parse_and_validate_model_failures() {
    let rini = render::parse_renderconfig_ini(t(render_text())).unwrap();
    let def = BuildingDef::from_config(&t("bi"), &t("rc"), &rini).unwrap();
    let model = mesh_with(&[], &[]);
    let mut files = clean_sources(&def, model);
    files.model = ModelLoad::TrailingBytes { extra: 7 };
    let errs = def.parse_and_validate(files).unwrap_err();
    assert_eq!(errs.len(), 1);
    assert!(matches!(errs[0], Violation::ModelTrailingBytes { extra: 7 }));
}

#[test]
fn concat_parse_errors_formats_chunks() {
    let errs = match material::parse_mtl(t("$TEXTURE x foo.dds\n")) {
        Err(e) => e,
        Ok(_) => panic!("expected a failure"),
    };
    let msg = s(&concat_parse_errors(&errs));
    assert_eq!(msg, "Error: cannot decode directive\r\nChunk: [$TEXTURE x foo.dds]\r\n");
}

#[test]
fn path_helpers() {
    assert_eq!(s(&path_join(&t("/a/b"), &t("c.ini"))), "/a/b/c.ini");
    assert_eq!(s(&path_join(&t("/a/b/"), &t("c.ini"))), "/a/b/c.ini");
    assert_eq!(s(&path_join(&t(""), &t("c.ini"))), "c.ini");
    assert_eq!(s(&path_parent(&t("/a/b/c.ini"))), "/a/b");
    assert_eq!(s(&path_parent(&t("c.ini"))), "");
    assert!(path_option_valid(&None));
    assert!(path_option_valid(&Some(true)));
    assert!(!path_option_valid(&Some(false)));
}

#[test]
fn prefixes_resolve_against_their_roots() {
    let st = settings();
    assert!(matches!(PathPrefix::parse(&t("~/")), Ok(PathPrefix::Stock)));
    assert!(matches!(PathPrefix::parse(&t("$/")), Ok(PathPrefix::Workshop)));
    assert!(matches!(PathPrefix::parse(&t("./")), Ok(PathPrefix::CurrentDir)));
    assert!(PathPrefix::parse(&t("!!")).is_err());
    assert_eq!(s(&resolve_prefixed_path(PathPrefix::Stock, &t("x.dds"), &t("/here"), &st)), "/stock/x.dds");
    assert_eq!(s(&resolve_prefixed_path(PathPrefix::CurrentDir, &t("x.dds"), &t("/here"), &st)), "/here/x.dds");
}

#[test]
fn render_ref_pointer_forms() {
    match parse_render_ref(&t("#1234567890/thing")).unwrap() {
        RenderRef::Workshop(p) => assert_eq!(s(&p), "1234567890/thing"),
        _ => panic!("expected a workshop pointer"),
    }
    match parse_render_ref(&t("~some_key\r\n")).unwrap() {
        RenderRef::Stock(p) => assert_eq!(s(&p), "some_key"),
        _ => panic!("expected a stock pointer"),
    }
    match parse_render_ref(&t("../other/dir\r\nrest")).unwrap() {
        RenderRef::Relative(p) => assert_eq!(s(&p), "../other/dir"),
        _ => panic!("expected a relative pointer"),
    }
    assert!(parse_render_ref(&t("")).is_err());
    // a malformed workshop pointer falls back to a relative path
    match parse_render_ref(&t("#bad")).unwrap() {
        RenderRef::Relative(p) => assert_eq!(s(&p), "#bad"),
        _ => panic!("expected the relative fallback"),
    }
}

#[test]
fn source_path_resolution() {
    let st = settings();
    assert_eq!(s(&resolve_source_path(&t("/root"), &t("#123/x"), &st)), "/workshop/123/x");
    assert_eq!(s(&resolve_source_path(&t("/root"), &t("~key"), &st)), "/stock/key");
    assert_eq!(s(&resolve_source_path(&t("/root"), &t("dir/y"), &st)), "/root/dir/y");
}

fn good_input() -> SourceInput {
    let rini = render::parse_renderconfig_ini(t(render_text())).unwrap();
    let def = BuildingDef::from_config(&t("bi"), &t("rc"), &rini).unwrap();
    let model = mesh_with(&[("wall", Some(0))], &["roof"]);
    let files = clean_sources(&def, model);
    SourceInput {
        building_ini: t("bi"),
        renderconfig: t("rc"),
        has_source: true,
        has_ref: false,
        render: LoadedIni::Parsed(render::parse_renderconfig_ini(t(render_text())).unwrap()),
        files,
    }
}

#[test]
fn batch_counts_failures_and_continues() {
    let good = good_input();
    let mut bad = good_input();
    bad.has_ref = true;  // both config kinds present
    let mut bad2 = good_input();
    bad2.render = LoadedIni::Unreadable;
    let mut bad3 = good_input();
    bad3.render = LoadedIni::ParseFailed(Vec::new());
    match read_validate_sources(vec![good, bad, bad2, bad3]) {
        Err(n) => assert_eq!(n, 3),
        Ok(_) => panic!("expected a failure count"),
    }
    let all_good = vec![good_input(), good_input()];
    let out = read_validate_sources(all_good).unwrap();
    assert_eq!(out.len(), 2);
    assert_eq!(s(&out[0].def.building_ini), "bi");
}

#[test]
fn process_source_requires_exactly_one_config() {
    let mut inp = good_input();
    inp.has_source = false;
    assert!(process_source(inp).is_err());
}

#[test]
fn stock_cache_parses_at_most_once() {
    let st = settings();
    let mut map = StockBuildings {
        entries: vec![(t("factory_a"), StockBuilding::Unparsed(t(render_text())))],
    };
    let i = get_stock_building(&t("factory_a"), &mut map, &st).unwrap().unwrap();
    assert_eq!(i, 0);
    assert!(matches!(map.entries[0].1, StockBuilding::Parsed(_)));
    // a second lookup serves the cached parse
    let i = get_stock_building(&t("factory_a"), &mut map, &st).unwrap().unwrap();
    assert_eq!(i, 0);
    // an absent key is told apart from a bad entry
    assert!(matches!(get_stock_building(&t("unknown"), &mut map, &st), Ok(None)));
    let mut bad = StockBuildings {
        entries: vec![(t("broken"), StockBuilding::Unparsed(t(" MATERIAL m.mtl\r\n")))],
    };
    assert!(matches!(
        get_stock_building(&t("broken"), &mut bad, &st),
        Err(BuildingError::ModelMissing)
    ));
    assert!(matches!(bad.entries[0].1, StockBuilding::Unparsed(_)));
}

#[test]
fn unknown_prefix_error_names_it() {
    match PathPrefix::parse(&t("!!")) {
        Err(m) => assert_eq!(s(&m), "Unknown path prefix '!!'"),
        Ok(_) => panic!("expected a failure"),
    }
}

#[test]
fn skin_textures_can_be_filled() {
    let st = settings();
    let mtl = material::parse_mtl(t("$TEXTURE 0 a.dds\r\n$TEXTURE_MTL 1 b.dds\r\n")).unwrap();
    let skins = get_skins(&t("~/sk/red.mtl\r\n"), &t("/mods/b1"), &st);
    let mut sm = skins.into_iter().next().unwrap().material;
    fill_skin_textures(&mut sm, &mtl, &st);
    assert_eq!(sm.textures.len(), 2);
    assert_eq!(s(&sm.textures[0].value.path), "/stock/a.dds");
    assert_eq!(s(&sm.textures[1].value.path), "/stock/sk/b.dds");
}

#[test]
fn parse_ini_to_def_stock_and_mod() {
    let st = settings();
    let rini = render::parse_renderconfig_ini(t(render_text())).unwrap();
    let cfg = RenderConfig::Stock { key: t("factory_a"), data: t(render_text()) };
    let def = parse_ini_to_def(cfg, &rini, true, &st).unwrap();
    assert_eq!(s(&def.building_ini), "/stock/buildings_types/factory_a.ini");
    assert_eq!(s(&def.bbox), "/stock/buildings_types/factory_a.bbox");
    assert!(def.fire.is_some());
    assert_eq!(s(&def.model.ini_token.value), "/stock/model.nmf");

    let rini = render::parse_renderconfig_ini(t(render_text())).unwrap();
    let cfg = RenderConfig::Mod(t("/mods/b1/renderconfig.ini"));
    let def = parse_ini_to_def(cfg, &rini, false, &st).unwrap();
    assert_eq!(s(&def.building_ini), "/mods/b1/building.ini");
    assert!(def.fire.is_none());
    assert_eq!(s(&def.material.render_token.value), "/mods/b1/main.mtl");
}

#[test]
fn overrides_replace_fields() {
    let st = settings();
    let rini = render::parse_renderconfig_ini(t(render_text())).unwrap();
    let cfg = RenderConfig::Mod(t("/mods/b1/renderconfig.ini"));
    let def = parse_ini_to_def(cfg, &rini, false, &st).unwrap();
    let ov = SourceOverrides {
        building_ini: Some(t("/local/building.ini")),
        imagegui: Some(t("/local/imagegui.png")),
        skins: None,
        material: Some((t("/local/material.mtlx"), vec![])),
        material_e: None,
    };
    let d2 = source_to_def(def, ov).unwrap();
    assert_eq!(s(&d2.building_ini), "/local/building.ini");
    assert_eq!(s(&d2.imagegui.clone().unwrap()), "/local/imagegui.png");
    assert_eq!(s(&d2.material.render_token.value), "/local/material.mtlx");
}

#[test]
fn emissive_override_needs_base() {
    let st = settings();
    let rini = render::parse_renderconfig_ini(t(" MODEL m.nmf\r\n MATERIAL m.mtl\r\n")).unwrap();
    let cfg = RenderConfig::Mod(t("/mods/b1/renderconfig.ini"));
    let def = parse_ini_to_def(cfg, &rini, false, &st).unwrap();
    assert!(def.material_emissive.is_none());
    let ov = SourceOverrides {
        building_ini: None,
        imagegui: None,
        skins: None,
        material: None,
        material_e: Some((t("/local/material_e.mtlx"), vec![])),
    };
    assert!(source_to_def(def, ov).is_err());
}

#[test]
fn texture_tokens_carry_ranges_and_resolved_paths() {
    let st = settings();
    let src = "$TEXTURE 0 foo.dds\r\n$TEXTURE_MTL 2 bar.dds\r\n";
    let mtl = material::parse_mtl(t(src)).unwrap();
    let toks = get_texture_tokens(&mtl, &t("/mods/b1"), &st);
    assert_eq!(toks.len(), 2);
    assert_eq!(toks[0].value.num, 0);
    assert_eq!(s(&toks[0].value.path), "/stock/foo.dds");
    assert_eq!(&src[toks[0].start..toks[0].end], "$TEXTURE 0 foo.dds");
    assert_eq!(toks[1].value.num, 2);
    assert_eq!(s(&toks[1].value.path), "/mods/b1/bar.dds");
}

#[test]
fn push_textures_deduplicates() {
    let mtl = material::parse_mtl(t("$TEXTURE 0 a.dds\r\n$TEXTURE 1 a.dds\r\n$TEXTURE 2 b.dds\r\n"))
        .unwrap();
    let mut textures: Vec<Vec<char>> = Vec::new();
    push_textures(&mut textures, &mtl, &t("/stock"), &t("/m"));
    let got: Vec<String> = textures.iter().map(|p| s(p)).collect();
    assert_eq!(got, vec!["/stock/a.dds".to_string(), "/stock/b.dds".to_string()]);
}

#[test]
fn root_path_and_defs() {
    let st = settings();
    let rc = RenderConfig::Mod(t("/mods/b1/renderconfig.ini"));
    assert_eq!(s(&rc.root_path(&st)), "/mods/b1");
    let rc = RenderConfig::Stock { key: t("k"), data: t("") };
    assert_eq!(s(&rc.root_path(&st)), "/stock");
    let md = ModelDef::new(IniToken { start: 0, end: 4, value: t("m.nmf") });
    assert!(md.patch.is_none());
    let mat = MaterialDef::new(IniToken { start: 0, end: 4, value: t("m.mtl") }, vec![]);
    assert!(mat.textures.is_empty());
}

#[test]
fn validate_lists_used_submaterial_names() {
    let st = settings();
    let rini = render::parse_renderconfig_ini(t(render_text())).unwrap();
    let cfg = RenderConfig::Mod(t("/mods/b1/renderconfig.ini"));
    let def = parse_ini_to_def(cfg, &rini, false, &st).unwrap();
    let model = mesh_with(&[("wall", Some(1)), ("roof", None)], &["a", "b"]);
    let names = def.validate(&model).unwrap();
    let got: Vec<String> = names.iter().map(|p| s(p)).collect();
    assert_eq!(got, vec!["b".to_string()]);
}

#[test]
fn skin_lines_parse_and_resolve() {
    let st = settings();
    let text = t("~/skins/red.mtl + ./glow.mtl\r\n$/shared/blue.mtl\r\nnot a skin line\r\n");
    let skins = get_skins(&text, &t("/mods/b1"), &st);
    assert_eq!(skins.len(), 2);
    assert_eq!(s(&skins[0].material.path), "/stock/skins/red.mtl");
    assert_eq!(
        s(&skins[0].material_emissive.as_ref().unwrap().path),
        "/mods/b1/glow.mtl"
    );
    assert!(skins[0].material.textures.is_empty());
    assert_eq!(s(&skins[1].material.path), "/workshop/shared/blue.mtl");
    assert!(skins[1].material_emissive.is_none());
}
