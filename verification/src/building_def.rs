//! A building definition assembled from its render manifest, and the
//! cross-validation of its configuration against the decoded model.

use vstd::prelude::*;
use crate::scan::Span;
use crate::ini::{IniFile, IniToken, ParseError};
use crate::building;
use crate::material;
use crate::render;
use crate::nmf::{Nmf, name_found, sub_used};
use crate::paths::{join_spec, parent_spec, path_join, path_parent};
use crate::text::{text_eq, text_starts_with, starts_with, chars_of, range_text};

verus! {

/// The asset paths of one building, resolved against the render manifest's
/// own directory.
pub struct BuildingDef {
    pub building_ini: Vec<char>,
    pub renderconfig: Vec<char>,
    pub model: Vec<char>,
    pub model_lod: Option<Vec<char>>,
    pub model_lod2: Option<Vec<char>>,
    pub model_e: Option<Vec<char>>,
    pub material: Vec<char>,
    pub material_e: Option<Vec<char>>,
    pub textures: Vec<Vec<char>>,
}

/// Why a building definition could not be assembled.
#[derive(Debug)]
pub enum BuildingError {
    FileIO(Vec<char>),
    Parse(Vec<char>, Vec<char>),
    ModelMissing,
    MaterialMissing,
}

/// The first `MODEL` path among the manifest's tokens.
pub open spec fn first_model(toks: Seq<render::Token>) -> Option<Seq<char>>
    decreases toks.len(),
{
    if toks.len() == 0 {
        Option::None
    } else {
        match toks[0] {
            render::Token::Model(p) => Option::Some(p@),
            _ => first_model(toks.skip(1)),
        }
    }
}

pub open spec fn first_model_lod(toks: Seq<render::Token>) -> Option<Seq<char>>
    decreases toks.len(),
{
    if toks.len() == 0 {
        Option::None
    } else {
        match toks[0] {
            render::Token::ModelLod((p, _)) => Option::Some(p@),
            _ => first_model_lod(toks.skip(1)),
        }
    }
}

pub open spec fn first_model_lod2(toks: Seq<render::Token>) -> Option<Seq<char>>
    decreases toks.len(),
{
    if toks.len() == 0 {
        Option::None
    } else {
        match toks[0] {
            render::Token::ModelLod2((p, _)) => Option::Some(p@),
            _ => first_model_lod2(toks.skip(1)),
        }
    }
}

pub open spec fn first_model_e(toks: Seq<render::Token>) -> Option<Seq<char>>
    decreases toks.len(),
{
    if toks.len() == 0 {
        Option::None
    } else {
        match toks[0] {
            render::Token::ModelEmissive(p) => Option::Some(p@),
            _ => first_model_e(toks.skip(1)),
        }
    }
}

pub open spec fn first_material(toks: Seq<render::Token>) -> Option<Seq<char>>
    decreases toks.len(),
{
    if toks.len() == 0 {
        Option::None
    } else {
        match toks[0] {
            render::Token::Material(p) => Option::Some(p@),
            _ => first_material(toks.skip(1)),
        }
    }
}

pub open spec fn first_material_e(toks: Seq<render::Token>) -> Option<Seq<char>>
    decreases toks.len(),
{
    if toks.len() == 0 {
        Option::None
    } else {
        match toks[0] {
            render::Token::MaterialEmissive(p) => Option::Some(p@),
            _ => first_material_e(toks.skip(1)),
        }
    }
}

/// The tokens held by a parsed render manifest.
pub open spec fn render_tokens(f: IniFile<render::Token>) -> Seq<render::Token> {
    f.toks@.map_values(
        |p: (Span, crate::ini::IniTokenState<render::Token>)| *p.1.get(),
    )
}

} // verus!

verus! {

/// Which material file a violation was found in.
#[derive(Clone, Copy, PartialEq, Eq, Structural, Debug)]
pub enum MtlFile {
    Primary,
    Emissive,
}

/// One finding of the cross-validation report.
pub enum Violation {
    PathMissing { what: Vec<char>, path: Vec<char> },
    ModelUnreadable,
    ModelDecodeFailed,
    ModelTrailingBytes { extra: usize },
    FileUnreadable { path: Vec<char> },
    ParseFailed { path: Vec<char>, errors: Vec<(Span, ParseError)> },
    NodeNotFound { token_text: Vec<char> },
    SubmaterialNotCovered { name: Vec<char>, file: MtlFile },
}

/// Some object's name begins with `pre`.
pub open spec fn prefix_found(m: Nmf, pre: Seq<char>) -> bool {
    exists|i: int|
        0 <= i < m.objects@.len() && starts_with((#[trigger] m.objects@[i]).name@, pre)
}

/// Whether a building token names a model node that the model lacks:
/// node-naming tokens must match an object name exactly, the keyword form
/// by prefix.
pub open spec fn is_node_violation(t: building::Token, m: Nmf) -> bool {
    match t {
        building::Token::StorageLivingAuto(id) => !name_found(m, id.text()),
        building::Token::CostWorkBuildingNode(id) => !name_found(m, id.text()),
        building::Token::CostWorkVehicleStationNode(id) => !name_found(m, id.text()),
        building::Token::CostWorkBuildingKeyword(id) => !prefix_found(m, id.text()),
        _ => false,
    }
}

/// The offending tokens, in source order.
pub open spec fn node_violations(toks: Seq<building::Token>, m: Nmf) -> Seq<building::Token>
    decreases toks.len(),
{
    if toks.len() == 0 {
        Seq::empty()
    } else {
        (if is_node_violation(toks[0], m) {
            seq![toks[0]]
        } else {
            Seq::empty()
        }) + node_violations(toks.skip(1), m)
    }
}

pub open spec fn building_tokens(f: IniFile<building::Token>) -> Seq<building::Token> {
    f.toks@.map_values(
        |p: (Span, crate::ini::IniTokenState<building::Token>)| *p.1.get(),
    )
}

pub open spec fn material_tokens(f: IniFile<material::Token>) -> Seq<material::Token> {
    f.toks@.map_values(
        |p: (Span, crate::ini::IniTokenState<material::Token>)| *p.1.get(),
    )
}

fn obj_name_found(m: &Nmf, name: &Vec<char>) -> (r: bool)
    ensures
        r == name_found(*m, name@),
{
    let mut i: usize = 0;
    while i < m.objects.len()
        invariant
            i <= m.objects@.len(),
            forall|j: int| 0 <= j < i ==> (#[trigger] m.objects@[j]).name@ != name@,
        decreases m.objects@.len() - i,
    {
        if text_eq(&m.objects[i].name, name) {
            return true;
        }
        i += 1;
    }
    false
}

fn obj_prefix_found(m: &Nmf, pre: &Vec<char>) -> (r: bool)
    ensures
        r == prefix_found(*m, pre@),
{
    let mut i: usize = 0;
    while i < m.objects.len()
        invariant
            i <= m.objects@.len(),
            forall|j: int| 0 <= j < i ==> !starts_with((#[trigger] m.objects@[j]).name@, pre@),
        decreases m.objects@.len() - i,
    {
        if text_starts_with(&m.objects[i].name, pre) {
            return true;
        }
        i += 1;
    }
    false
}

/// Append one `NodeNotFound` violation, carrying the offending token's own
/// serialized text, for every node-naming token with no matching object.
pub fn push_buildingini_errors(
    building_ini: &IniFile<building::Token>,
    model: &Nmf,
    errors: &mut Vec<Violation>,
)
    ensures
        ({
            let nv = node_violations(building_tokens(*building_ini), *model);
            &&& final(errors)@.len() == old(errors)@.len() + nv.len()
            &&& forall|j: int| 0 <= j < old(errors)@.len() ==> final(errors)@[j] == old(errors)@[j]
            &&& forall|j: int|
                0 <= j < nv.len() ==> match #[trigger] final(errors)@[old(errors)@.len() + j] {
                    Violation::NodeNotFound { token_text } => token_text@ == nv[j].ser_spec(),
                    _ => false,
                }
        }),
{
    let ghost toks = building_tokens(*building_ini);
    let ghost base = errors@;
    let ghost mut done: Seq<building::Token> = Seq::empty();
    let n = building_ini.toks.len();
    let mut i: usize = 0;
    proof {
        assert(toks.skip(0) =~= toks);
    }
    while i < n
        invariant
            i <= n == building_ini.toks@.len(),
            toks == building_tokens(*building_ini),
            node_violations(toks, *model) == done + node_violations(toks.skip(i as int), *model),
            errors@.len() == base.len() + done.len(),
            forall|j: int| 0 <= j < base.len() ==> #[trigger] errors@[j] == base[j],
            forall|j: int|
                0 <= j < done.len() ==> match #[trigger] errors@[base.len() + j] {
                    Violation::NodeNotFound { token_text } => token_text@ == done[j].ser_spec(),
                    _ => false,
                },
        decreases n - i,
    {
        proof {
            assert(toks.skip(i as int)[0] == toks[i as int]);
            assert(toks.skip(i as int).skip(1) =~= toks.skip(i as int + 1));
            assert(toks[i as int] == *building_ini.toks@[i as int].1.get());
        }
        let t = building_ini.toks[i].1.token();
        let viol: bool = match t {
            building::Token::StorageLivingAuto(id) => !obj_name_found(model, id.value()),
            building::Token::CostWorkBuildingNode(id) => !obj_name_found(model, id.value()),
            building::Token::CostWorkVehicleStationNode(id) => !obj_name_found(
                model,
                id.value(),
            ),
            building::Token::CostWorkBuildingKeyword(id) => !obj_prefix_found(
                model,
                id.value(),
            ),
            _ => false,
        };
        assert(viol == is_node_violation(toks[i as int], *model));
        if viol {
            let txt = t.serialize();
            let ghost old_errors = errors@;
            errors.push(Violation::NodeNotFound { token_text: txt });
            proof {
                let ghost old_done = done;
                done = done + seq![toks[i as int]];
                assert(done + node_violations(toks.skip(i as int + 1), *model) =~= old_done + (
                seq![toks[i as int]] + node_violations(toks.skip(i as int + 1), *model)));
                assert forall|j: int| 0 <= j < done.len() implies match #[trigger] errors@[base.len()
                    + j] {
                    Violation::NodeNotFound { token_text } => token_text@ == done[j].ser_spec(),
                    _ => false,
                } by {
                    if j < old_done.len() {
                        assert(errors@[base.len() + j] == old_errors[base.len() + j]);
                    } else {
                        assert(errors@[base.len() + j] == errors@.last());
                        assert(done[j] == toks[i as int]);
                    }
                }
            }
        } else {
            proof {
                assert(node_violations(toks.skip(i as int), *model) == node_violations(
                    toks.skip(i as int + 1),
                    *model,
                ));
            }
        }
        i += 1;
    }
    proof {
        assert(toks.skip(n as int) =~= Seq::<building::Token>::empty());
        assert(node_violations(toks, *model) =~= done);
    }
}

/// Some object references submaterial `s`.
pub open spec fn used_any(m: Nmf, s: int) -> bool {
    exists|i: int|
        0 <= i < m.objects@.len() && match (#[trigger] m.objects@[i]).submaterial_idx {
            Option::Some(x) => x as int == s,
            Option::None => false,
        }
}

/// A material token declares the submaterial named `name`.
pub open spec fn covered(toks: Seq<material::Token>, name: Seq<char>) -> bool {
    exists|k: int|
        0 <= k < toks.len() && match #[trigger] toks[k] {
            material::Token::Submaterial(s) => s@ == name,
            _ => false,
        }
}

/// Submaterial `s` is referenced by the model but has no declaration in
/// the material file.
pub open spec fn is_mtl_violation(m: Nmf, toks: Seq<material::Token>, s: int) -> bool {
    used_any(m, s) && !covered(toks, m.submaterials@[s].name@)
}

/// The violating submaterial indices, in order, from `s` on.
pub open spec fn mtl_violations_from(m: Nmf, toks: Seq<material::Token>, s: int) -> Seq<int>
    decreases m.submaterials@.len() - s when 0 <= s <= m.submaterials@.len()
{
    if s >= m.submaterials@.len() {
        Seq::empty()
    } else {
        (if is_mtl_violation(m, toks, s) {
            seq![s]
        } else {
            Seq::empty()
        }) + mtl_violations_from(m, toks, s + 1)
    }
}

fn sub_used_x(m: &Nmf, s: usize) -> (r: bool)
    ensures
        r == used_any(*m, s as int),
{
    let mut i: usize = 0;
    while i < m.objects.len()
        invariant
            i <= m.objects@.len(),
            forall|j: int|
                0 <= j < i ==> match (#[trigger] m.objects@[j]).submaterial_idx {
                    Option::Some(x) => x as int != s as int,
                    Option::None => true,
                },
        decreases m.objects@.len() - i,
    {
        match m.objects[i].submaterial_idx {
            Option::Some(x) => {
                if x as usize == s {
                    return true;
                }
            },
            Option::None => {},
        }
        i += 1;
    }
    false
}

fn covered_x(mtl: &IniFile<material::Token>, name: &Vec<char>) -> (r: bool)
    ensures
        r == covered(material_tokens(*mtl), name@),
{
    let ghost toks = material_tokens(*mtl);
    let mut k: usize = 0;
    while k < mtl.toks.len()
        invariant
            k <= mtl.toks@.len(),
            toks == material_tokens(*mtl),
            forall|j: int|
                0 <= j < k ==> match #[trigger] toks[j] {
                    material::Token::Submaterial(s) => s@ != name@,
                    _ => true,
                },
        decreases mtl.toks@.len() - k,
    {
        proof {
            assert(toks[k as int] == *mtl.toks@[k as int].1.get());
        }
        match mtl.toks[k].1.token() {
            material::Token::Submaterial(s) => {
                if text_eq(s, name) {
                    return true;
                }
            },
            _ => {},
        }
        k += 1;
    }
    false
}

/// Append one `SubmaterialNotCovered` violation, naming the submaterial
/// and the file checked, for every submaterial that a model object uses
/// but the material file never declares.
pub fn push_mtl_errors(
    mtl: &IniFile<material::Token>,
    model: &Nmf,
    errors: &mut Vec<Violation>,
    file: MtlFile,
)
    ensures
        ({
            let uv = mtl_violations_from(*model, material_tokens(*mtl), 0);
            &&& final(errors)@.len() == old(errors)@.len() + uv.len()
            &&& forall|j: int| 0 <= j < old(errors)@.len() ==> final(errors)@[j] == old(errors)@[j]
            &&& forall|j: int|
                0 <= j < uv.len() ==> match #[trigger] final(errors)@[old(errors)@.len() + j] {
                    Violation::SubmaterialNotCovered { name, file: f } => name@
                        == model.submaterials@[uv[j]].name@ && f == file,
                    _ => false,
                }
        }),
{
    let ghost toks = material_tokens(*mtl);
    let ghost base = errors@;
    let ghost mut done: Seq<int> = Seq::empty();
    let n = model.submaterials.len();
    let mut s: usize = 0;
    while s < n
        invariant
            s <= n == model.submaterials@.len(),
            toks == material_tokens(*mtl),
            mtl_violations_from(*model, toks, 0) == done + mtl_violations_from(
                *model,
                toks,
                s as int,
            ),
            errors@.len() == base.len() + done.len(),
            forall|j: int| 0 <= j < base.len() ==> #[trigger] errors@[j] == base[j],
            forall|j: int|
                0 <= j < done.len() ==> match #[trigger] errors@[base.len() + j] {
                    Violation::SubmaterialNotCovered { name, file: f } => name@
                        == model.submaterials@[done[j]].name@ && f == file,
                    _ => false,
                },
        decreases n - s,
    {
        let used = sub_used_x(model, s);
        let cov = covered_x(mtl, &model.submaterials[s].name);
        let viol = used && !cov;
        assert(viol == is_mtl_violation(*model, toks, s as int));
        if viol {
            let nm = range_text(&model.submaterials[s].name, 0, model.submaterials[s].name.len());
            proof {
                assert(nm@ =~= model.submaterials@[s as int].name@);
            }
            let ghost old_errors = errors@;
            errors.push(Violation::SubmaterialNotCovered { name: nm, file });
            proof {
                let ghost old_done = done;
                done = done + seq![s as int];
                assert(done + mtl_violations_from(*model, toks, s as int + 1) =~= old_done + (
                seq![s as int] + mtl_violations_from(*model, toks, s as int + 1)));
                assert forall|j: int| 0 <= j < done.len() implies match #[trigger] errors@[base.len()
                    + j] {
                    Violation::SubmaterialNotCovered { name, file: f } => name@
                        == model.submaterials@[done[j]].name@ && f == file,
                    _ => false,
                } by {
                    if j < old_done.len() {
                        assert(errors@[base.len() + j] == old_errors[base.len() + j]);
                    } else {
                        assert(errors@[base.len() + j] == errors@.last());
                        assert(done[j] == s as int);
                    }
                }
            }
        } else {
            proof {
                assert(mtl_violations_from(*model, toks, s as int) == mtl_violations_from(
                    *model,
                    toks,
                    s as int + 1,
                ));
            }
        }
        s += 1;
    }
}

} // verus!

verus! {

/// The text of one collected parse failure.
pub open spec fn parse_error_text(chunk: Seq<char>) -> Seq<char> {
    "Error: cannot decode directive\r\nChunk: ["@ + chunk + "]\r\n"@
}

pub open spec fn concat_parse_errors_spec(errs: Seq<(Span, ParseError)>) -> Seq<char>
    decreases errs.len(),
{
    if errs.len() == 0 {
        Seq::empty()
    } else {
        parse_error_text(errs[0].1.chunk@) + concat_parse_errors_spec(errs.skip(1))
    }
}

/// One text holding every collected parse failure, in order.
pub fn concat_parse_errors(errs: &Vec<(Span, ParseError)>) -> (r: Vec<char>)
    ensures
        r@ == concat_parse_errors_spec(errs@),
{
    let mut r: Vec<char> = Vec::new();
    let n = errs.len();
    let mut i: usize = 0;
    proof {
        assert(errs@.skip(0) =~= errs@);
    }
    while i < n
        invariant
            i <= n == errs@.len(),
            concat_parse_errors_spec(errs@) == r@ + concat_parse_errors_spec(
                errs@.skip(i as int),
            ),
        decreases n - i,
    {
        proof {
            assert(errs@.skip(i as int)[0] == errs@[i as int]);
            assert(errs@.skip(i as int).skip(1) =~= errs@.skip(i as int + 1));
        }
        let ghost before = r@;
        let mut head = chars_of("Error: cannot decode directive\r\nChunk: [");
        r.append(&mut head);
        let mut chunk = range_text(&errs[i].1.chunk, 0, errs[i].1.chunk.len());
        r.append(&mut chunk);
        let mut tail = chars_of("]\r\n");
        r.append(&mut tail);
        proof {
            assert(r@ =~= before + parse_error_text(errs@[i as int].1.chunk@));
        }
        i += 1;
    }
    proof {
        assert(concat_parse_errors_spec(errs@.skip(n as int)) =~= Seq::<char>::empty());
        assert(concat_parse_errors_spec(errs@) =~= r@);
    }
    r
}

impl BuildingDef {
    /// Assemble a definition from a parsed render manifest: the first
    /// `MODEL` and `MATERIAL` directives are mandatory, the LOD, emissive
    /// and emissive-material variants optional; every path resolves against
    /// the manifest's own directory.  Textures start out empty.
    pub fn from_config(
        building_ini: &Vec<char>,
        renderconfig: &Vec<char>,
        render_ini: &IniFile<render::Token>,
    ) -> (r: Result<BuildingDef, BuildingError>)
        ensures
            ({
                let toks = render_tokens(*render_ini);
                let root = parent_spec(renderconfig@);
                match r {
                    Result::Ok(def) => {
                        &&& first_model(toks) is Some
                        &&& first_material(toks) is Some
                        &&& def.building_ini@ == building_ini@
                        &&& def.renderconfig@ == renderconfig@
                        &&& def.model@ == join_spec(root, first_model(toks)->Some_0)
                        &&& (match (def.model_lod, first_model_lod(toks)) {
                            (Option::Some(p), Option::Some(q)) => p@ == join_spec(root, q),
                            (Option::None, Option::None) => true,
                            _ => false,
                        })
                        &&& (match (def.model_lod2, first_model_lod2(toks)) {
                            (Option::Some(p), Option::Some(q)) => p@ == join_spec(root, q),
                            (Option::None, Option::None) => true,
                            _ => false,
                        })
                        &&& (match (def.model_e, first_model_e(toks)) {
                            (Option::Some(p), Option::Some(q)) => p@ == join_spec(root, q),
                            (Option::None, Option::None) => true,
                            _ => false,
                        })
                        &&& def.material@ == join_spec(root, first_material(toks)->Some_0)
                        &&& (match (def.material_e, first_material_e(toks)) {
                            (Option::Some(p), Option::Some(q)) => p@ == join_spec(root, q),
                            (Option::None, Option::None) => true,
                            _ => false,
                        })
                        &&& def.textures@.len() == 0
                    },
                    Result::Err(BuildingError::ModelMissing) => first_model(toks) is None,
                    Result::Err(BuildingError::MaterialMissing) => first_model(toks) is Some
                        && first_material(toks) is None,
                    Result::Err(_) => false,
                }
            }),
    {
        let ghost toks = render_tokens(*render_ini);
        let mut model: Option<Vec<char>> = None;
        let mut model_lod: Option<Vec<char>> = None;
        let mut model_lod2: Option<Vec<char>> = None;
        let mut model_e: Option<Vec<char>> = None;
        let mut mat: Option<Vec<char>> = None;
        let mut mat_e: Option<Vec<char>> = None;
        let n = render_ini.toks.len();
        let mut i: usize = 0;
        proof {
            assert(toks.skip(0) =~= toks);
        }
        while i < n
            invariant
                i <= n == render_ini.toks@.len(),
                toks == render_tokens(*render_ini),
                (match model {
                    Option::Some(p) => first_model(toks) == Option::Some(p@),
                    Option::None => first_model(toks) == first_model(toks.skip(i as int)),
                }),
                (match model_lod {
                    Option::Some(p) => first_model_lod(toks) == Option::Some(p@),
                    Option::None => first_model_lod(toks) == first_model_lod(
                        toks.skip(i as int),
                    ),
                }),
                (match model_lod2 {
                    Option::Some(p) => first_model_lod2(toks) == Option::Some(p@),
                    Option::None => first_model_lod2(toks) == first_model_lod2(
                        toks.skip(i as int),
                    ),
                }),
                (match model_e {
                    Option::Some(p) => first_model_e(toks) == Option::Some(p@),
                    Option::None => first_model_e(toks) == first_model_e(toks.skip(i as int)),
                }),
                (match mat {
                    Option::Some(p) => first_material(toks) == Option::Some(p@),
                    Option::None => first_material(toks) == first_material(toks.skip(i as int)),
                }),
                (match mat_e {
                    Option::Some(p) => first_material_e(toks) == Option::Some(p@),
                    Option::None => first_material_e(toks) == first_material_e(
                        toks.skip(i as int),
                    ),
                }),
            decreases n - i,
        {
            proof {
                assert(toks.skip(i as int)[0] == toks[i as int]);
                assert(toks.skip(i as int).skip(1) =~= toks.skip(i as int + 1));
                assert(toks[i as int] == *render_ini.toks@[i as int].1.get());
            }
            let t = render_ini.toks[i].1.token();
            match t {
                render::Token::Model(p) => {
                    if model.is_none() {
                        model = Some(range_text(p, 0, p.len()));
                        assert(model->Some_0@ =~= p@);
                    }
                },
                render::Token::ModelLod((p, _)) => {
                    if model_lod.is_none() {
                        model_lod = Some(range_text(p, 0, p.len()));
                        assert(model_lod->Some_0@ =~= p@);
                    }
                },
                render::Token::ModelLod2((p, _)) => {
                    if model_lod2.is_none() {
                        model_lod2 = Some(range_text(p, 0, p.len()));
                        assert(model_lod2->Some_0@ =~= p@);
                    }
                },
                render::Token::ModelEmissive(p) => {
                    if model_e.is_none() {
                        model_e = Some(range_text(p, 0, p.len()));
                        assert(model_e->Some_0@ =~= p@);
                    }
                },
                render::Token::Material(p) => {
                    if mat.is_none() {
                        mat = Some(range_text(p, 0, p.len()));
                        assert(mat->Some_0@ =~= p@);
                    }
                },
                render::Token::MaterialEmissive(p) => {
                    if mat_e.is_none() {
                        mat_e = Some(range_text(p, 0, p.len()));
                        assert(mat_e->Some_0@ =~= p@);
                    }
                },
            }
            i += 1;
        }
        proof {
            assert(toks.skip(n as int) =~= Seq::<render::Token>::empty());
        }
        let root = path_parent(renderconfig);
        let model = match model {
            Option::Some(p) => p,
            Option::None => {
                return Err(BuildingError::ModelMissing);
            },
        };
        let mat = match mat {
            Option::Some(p) => p,
            Option::None => {
                return Err(BuildingError::MaterialMissing);
            },
        };
        let def = BuildingDef {
            building_ini: range_text(building_ini, 0, building_ini.len()),
            renderconfig: range_text(renderconfig, 0, renderconfig.len()),
            model: path_join(&root, &model),
            model_lod: match model_lod {
                Option::Some(p) => Some(path_join(&root, &p)),
                Option::None => None,
            },
            model_lod2: match model_lod2 {
                Option::Some(p) => Some(path_join(&root, &p)),
                Option::None => None,
            },
            model_e: match model_e {
                Option::Some(p) => Some(path_join(&root, &p)),
                Option::None => None,
            },
            material: path_join(&root, &mat),
            material_e: match mat_e {
                Option::Some(p) => Some(path_join(&root, &p)),
                Option::None => None,
            },
            textures: Vec::new(),
        };
        proof {
            assert(def.building_ini@ =~= building_ini@);
            assert(def.renderconfig@ =~= renderconfig@);
        }
        Ok(def)
    }
}

} // verus!

verus! {

/// A configuration file as loaded for validation.
pub enum LoadedIni<T> {
    Parsed(IniFile<T>),
    ParseFailed(Vec<(Span, ParseError)>),
    Unreadable,
}

/// The model asset as loaded for validation.
pub enum ModelLoad {
    Loaded(Nmf),
    Unreadable,
    DecodeFailed,
    TrailingBytes { extra: usize },
}

/// Everything gathered on disk for one building, handed in as plain
/// values: which paths exist, the decoded model, and the parsed
/// configuration files.
pub struct SourceData {
    pub building_ini_exists: bool,
    pub renderconfig_exists: bool,
    pub model_exists: bool,
    pub model_lod_exists: bool,
    pub model_lod2_exists: bool,
    pub model_e_exists: bool,
    pub material_exists: bool,
    pub material_e_exists: bool,
    pub textures_exist: Vec<bool>,
    pub model: ModelLoad,
    pub building_ini: LoadedIni<building::Token>,
    pub material: LoadedIni<material::Token>,
    pub material_e: LoadedIni<material::Token>,
}

/// Validation finds nothing to report: every path exists, the model
/// decoded, all files parsed, every named node matches an object, and
/// every used submaterial is declared.
pub open spec fn validation_clean(def: BuildingDef, files: SourceData) -> bool {
    &&& files.building_ini_exists
    &&& files.renderconfig_exists
    &&& files.model_exists
    &&& (def.model_lod is Some ==> files.model_lod_exists)
    &&& (def.model_lod2 is Some ==> files.model_lod2_exists)
    &&& (def.model_e is Some ==> files.model_e_exists)
    &&& files.material_exists
    &&& (def.material_e is Some ==> files.material_e_exists)
    &&& (forall|i: int|
        0 <= i < files.textures_exist@.len() ==> #[trigger] files.textures_exist@[i])
    &&& files.model is Loaded
    &&& {
        let m = files.model->Loaded_0;
        &&& (match files.building_ini {
            LoadedIni::Parsed(f) => node_violations(building_tokens(f), m).len() == 0,
            _ => false,
        })
        &&& (match files.material {
            LoadedIni::Parsed(f) => mtl_violations_from(m, material_tokens(f), 0).len() == 0,
            _ => false,
        })
        &&& (def.material_e is Some ==> match files.material_e {
            LoadedIni::Parsed(f) => mtl_violations_from(m, material_tokens(f), 0).len() == 0,
            _ => false,
        })
    }
}


/// Specification-level counterpart of [`Violation`].
pub enum ViolationS {
    PathMissing { what: Seq<char>, path: Seq<char> },
    ModelUnreadable,
    ModelDecodeFailed,
    ModelTrailingBytes { extra: int },
    FileUnreadable { path: Seq<char> },
    ParseFailed { path: Seq<char>, errors: Seq<(Span, Seq<char>)> },
    NodeNotFound { token_text: Seq<char> },
    SubmaterialNotCovered { name: Seq<char>, file: MtlFile },
}

pub open spec fn parse_errs_view(errs: Seq<(Span, ParseError)>) -> Seq<(Span, Seq<char>)> {
    errs.map_values(|p: (Span, ParseError)| (p.0, p.1.chunk@))
}

impl View for Violation {
    type V = ViolationS;

    open spec fn view(&self) -> ViolationS {
        match self {
            Violation::PathMissing { what, path } => ViolationS::PathMissing {
                what: what@,
                path: path@,
            },
            Violation::ModelUnreadable => ViolationS::ModelUnreadable,
            Violation::ModelDecodeFailed => ViolationS::ModelDecodeFailed,
            Violation::ModelTrailingBytes { extra } => ViolationS::ModelTrailingBytes {
                extra: *extra as int,
            },
            Violation::FileUnreadable { path } => ViolationS::FileUnreadable { path: path@ },
            Violation::ParseFailed { path, errors } => ViolationS::ParseFailed {
                path: path@,
                errors: parse_errs_view(errors@),
            },
            Violation::NodeNotFound { token_text } => ViolationS::NodeNotFound {
                token_text: token_text@,
            },
            Violation::SubmaterialNotCovered { name, file } => ViolationS::SubmaterialNotCovered {
                name: name@,
                file: *file,
            },
        }
    }
}

pub open spec fn report_views(v: Seq<Violation>) -> Seq<ViolationS> {
    v.map_values(|x: Violation| x@)
}

/// The missing-texture entries of the report, from index `i` on.
#[verifier::opaque]
pub open spec fn tex_missing(
    textures: Seq<Vec<char>>,
    exist: Seq<bool>,
    i: int,
) -> Seq<ViolationS>
    decreases exist.len() - i when 0 <= i <= exist.len()
{
    if i >= exist.len() {
        Seq::empty()
    } else {
        (if !exist[i] {
            seq![
                ViolationS::PathMissing {
                    what: "texture"@,
                    path: (if i < textures.len() {
                        textures[i]@
                    } else {
                        Seq::empty()
                    }),
                },
            ]
        } else {
            Seq::empty()
        }) + tex_missing(textures, exist, i + 1)
    }
}

/// The missing-path entries of the report other than textures, in
/// checking order.
#[verifier::opaque]
pub open spec fn flag_viols(def: BuildingDef, files: SourceData) -> Seq<ViolationS> {
    (if !files.building_ini_exists {
        seq![ViolationS::PathMissing { what: "building.ini"@, path: def.building_ini@ }]
    } else {
        Seq::empty()
    }) + (if !files.renderconfig_exists {
        seq![ViolationS::PathMissing { what: "renderconfig.ini"@, path: def.renderconfig@ }]
    } else {
        Seq::empty()
    }) + (if !files.model_exists {
        seq![ViolationS::PathMissing { what: "MODEL"@, path: def.model@ }]
    } else {
        Seq::empty()
    }) + (match def.model_lod {
        Option::Some(p) => if !files.model_lod_exists {
            seq![ViolationS::PathMissing { what: "MODEL_LOD"@, path: p@ }]
        } else {
            Seq::empty()
        },
        Option::None => Seq::empty(),
    }) + (match def.model_lod2 {
        Option::Some(p) => if !files.model_lod2_exists {
            seq![ViolationS::PathMissing { what: "MODEL_LOD2"@, path: p@ }]
        } else {
            Seq::empty()
        },
        Option::None => Seq::empty(),
    }) + (match def.model_e {
        Option::Some(p) => if !files.model_e_exists {
            seq![ViolationS::PathMissing { what: "MODELEMISSIVE"@, path: p@ }]
        } else {
            Seq::empty()
        },
        Option::None => Seq::empty(),
    }) + (if !files.material_exists {
        seq![ViolationS::PathMissing { what: "MATERIAL"@, path: def.material@ }]
    } else {
        Seq::empty()
    }) + (match def.material_e {
        Option::Some(p) => if !files.material_e_exists {
            seq![ViolationS::PathMissing { what: "MATERIALEMISSIVE"@, path: p@ }]
        } else {
            Seq::empty()
        },
        Option::None => Seq::empty(),
    })
}

#[verifier::opaque]
pub open spec fn path_viols(def: BuildingDef, files: SourceData) -> Seq<ViolationS> {
    flag_viols(def, files) + tex_missing(def.textures@, files.textures_exist@, 0)
}

/// The report entries for the building configuration checked against the
/// model.
#[verifier::opaque]
pub open spec fn bini_viols(path: Seq<char>, m: Nmf, li: LoadedIni<building::Token>) -> Seq<
    ViolationS,
> {
    match li {
        LoadedIni::Parsed(f) => node_violations(building_tokens(f), m).map_values(
            |t: building::Token| ViolationS::NodeNotFound { token_text: t.ser_spec() },
        ),
        LoadedIni::ParseFailed(errs) => seq![
            ViolationS::ParseFailed { path, errors: parse_errs_view(errs@) },
        ],
        LoadedIni::Unreadable => seq![ViolationS::FileUnreadable { path }],
    }
}

/// The report entries for one material file checked against the model.
#[verifier::opaque]
pub open spec fn mtl_viols(
    path: Seq<char>,
    m: Nmf,
    li: LoadedIni<material::Token>,
    file: MtlFile,
) -> Seq<ViolationS> {
    match li {
        LoadedIni::Parsed(f) => mtl_violations_from(m, material_tokens(f), 0).map_values(
            |s: int| ViolationS::SubmaterialNotCovered { name: m.submaterials@[s].name@, file },
        ),
        LoadedIni::ParseFailed(errs) => seq![
            ViolationS::ParseFailed { path, errors: parse_errs_view(errs@) },
        ],
        LoadedIni::Unreadable => seq![ViolationS::FileUnreadable { path }],
    }
}

/// The model section of the report.
#[verifier::opaque]
pub open spec fn model_viols(def: BuildingDef, files: SourceData) -> Seq<ViolationS> {
    match files.model {
        ModelLoad::Loaded(m) => bini_viols(def.building_ini@, m, files.building_ini) + mtl_viols(
            def.material@,
            m,
            files.material,
            MtlFile::Primary,
        ) + (match def.material_e {
            Option::Some(me) => mtl_viols(me@, m, files.material_e, MtlFile::Emissive),
            Option::None => Seq::empty(),
        }),
        ModelLoad::Unreadable => seq![ViolationS::ModelUnreadable],
        ModelLoad::DecodeFailed => seq![ViolationS::ModelDecodeFailed],
        ModelLoad::TrailingBytes { extra } => seq![
            ViolationS::ModelTrailingBytes { extra: extra as int },
        ],
    }
}

/// The whole validation report, fixed by the definition and what was
/// gathered on disk: every missing path, then the model findings.
#[verifier::opaque]
pub open spec fn report_spec(def: BuildingDef, files: SourceData) -> Seq<ViolationS> {
    path_viols(def, files) + model_viols(def, files)
}

fn push_missing(errors: &mut Vec<Violation>, what: &str, path: &Vec<char>)
    ensures
        final(errors)@.len() == old(errors)@.len() + 1,
        forall|j: int| 0 <= j < old(errors)@.len() ==> final(errors)@[j] == old(errors)@[j],
        final(errors)@[old(errors)@.len() as int]@ == (ViolationS::PathMissing {
            what: what@,
            path: path@,
        }),
{
    let w = chars_of(what);
    let p = range_text(path, 0, path.len());
    assert(p@ =~= path@);
    errors.push(Violation::PathMissing { what: w, path: p });
}

/// Append every missing-path finding: one `PathMissing` per absent file,
/// in checking order, exactly `path_viols`.
#[verifier::rlimit(100)]
fn push_missing_paths(
    def: &BuildingDef,
    x_bi: bool,
    x_rc: bool,
    x_mo: bool,
    x_l1: bool,
    x_l2: bool,
    x_me: bool,
    x_ma: bool,
    x_mae: bool,
    textures_exist: &Vec<bool>,
    errors: &mut Vec<Violation>,
    Ghost(gfiles): Ghost<SourceData>,
)
    requires
        gfiles.building_ini_exists == x_bi,
        gfiles.renderconfig_exists == x_rc,
        gfiles.model_exists == x_mo,
        gfiles.model_lod_exists == x_l1,
        gfiles.model_lod2_exists == x_l2,
        gfiles.model_e_exists == x_me,
        gfiles.material_exists == x_ma,
        gfiles.material_e_exists == x_mae,
        gfiles.textures_exist@ == textures_exist@,
        old(errors)@.len() == 0,
    ensures
        report_views(final(errors)@) == path_viols(*def, gfiles),
{
    proof {
        assert(report_views(errors@) =~= Seq::<ViolationS>::empty());
    }
    if !x_bi {
        push_missing(errors, "building.ini", &def.building_ini);
    }
    if !x_rc {
        push_missing(errors, "renderconfig.ini", &def.renderconfig);
    }
    if !x_mo {
        push_missing(errors, "MODEL", &def.model);
    }
    match &def.model_lod {
        Option::Some(p) => {
            if !x_l1 {
                push_missing(errors, "MODEL_LOD", p);
            }
        },
        Option::None => {},
    }
    match &def.model_lod2 {
        Option::Some(p) => {
            if !x_l2 {
                push_missing(errors, "MODEL_LOD2", p);
            }
        },
        Option::None => {},
    }
    match &def.model_e {
        Option::Some(p) => {
            if !x_me {
                push_missing(errors, "MODELEMISSIVE", p);
            }
        },
        Option::None => {},
    }
    if !x_ma {
        push_missing(errors, "MATERIAL", &def.material);
    }
    match &def.material_e {
        Option::Some(p) => {
            if !x_mae {
                push_missing(errors, "MATERIALEMISSIVE", p);
            }
        },
        Option::None => {},
    }
    proof {
        reveal(flag_viols);
        assert(report_views(errors@) =~= flag_viols(*def, gfiles));
    }
    let ghost after_flags = errors@;
    let mut ti: usize = 0;
    proof {
        reveal_with_fuel(tex_missing, 2);
        assert(flag_viols(*def, gfiles) + tex_missing(def.textures@, gfiles.textures_exist@, 0)
            =~= report_views(errors@) + tex_missing(def.textures@, gfiles.textures_exist@, 0));
    }
    while ti < textures_exist.len()
        invariant
            ti <= textures_exist@.len(),
            textures_exist@ == gfiles.textures_exist@,
            flag_viols(*def, gfiles) + tex_missing(def.textures@, gfiles.textures_exist@, 0)
                == report_views(errors@) + tex_missing(
                def.textures@,
                gfiles.textures_exist@,
                ti as int,
            ),
        decreases textures_exist@.len() - ti,
    {
        if !textures_exist[ti] {
            let w = chars_of("texture");
            let path: Vec<char> = if ti < def.textures.len() {
                range_text(&def.textures[ti], 0, def.textures[ti].len())
            } else {
                Vec::new()
            };
            proof {
                if (ti as int) < def.textures@.len() {
                    assert(path@ =~= def.textures@[ti as int]@);
                } else {
                    assert(path@ =~= Seq::<char>::empty());
                }
            }
            let ghost prev = errors@;
            errors.push(Violation::PathMissing { what: w, path });
            proof {
                reveal_with_fuel(tex_missing, 2);
                assert(report_views(errors@) =~= report_views(prev) + seq![errors@.last()@]);
                assert((report_views(prev) + seq![errors@.last()@]) + tex_missing(
                    def.textures@,
                    gfiles.textures_exist@,
                    ti as int + 1,
                ) =~= report_views(prev) + (seq![errors@.last()@] + tex_missing(
                    def.textures@,
                    gfiles.textures_exist@,
                    ti as int + 1,
                )));
            }
        } else {
            proof {
                reveal_with_fuel(tex_missing, 2);
            }
        }
        ti += 1;
    }
    proof {
        reveal_with_fuel(tex_missing, 2);
        assert(tex_missing(
            def.textures@,
            gfiles.textures_exist@,
            gfiles.textures_exist@.len() as int,
        ) =~= Seq::<ViolationS>::empty());
        assert(report_views(errors@) + Seq::<ViolationS>::empty() =~= report_views(errors@));
        reveal(path_viols);
        assert(report_views(errors@) =~= path_viols(*def, gfiles));
    }
}

/// Append the model-section findings: node references, material coverage
/// (primary and, where present, emissive), or the model-load failure —
/// exactly `model_viols`.
#[verifier::rlimit(100)]
fn push_model_viols(
    def: &BuildingDef,
    model_load: &ModelLoad,
    bini_load: &LoadedIni<building::Token>,
    mat_load: &LoadedIni<material::Token>,
    mate_load: &LoadedIni<material::Token>,
    errors: &mut Vec<Violation>,
    Ghost(gfiles): Ghost<SourceData>,
)
    requires
        gfiles.model == *model_load,
        gfiles.building_ini == *bini_load,
        gfiles.material == *mat_load,
        gfiles.material_e == *mate_load,
    ensures
        report_views(final(errors)@) == report_views(old(errors)@) + model_viols(*def, gfiles),
{
    let ghost entry = errors@;
    match model_load {
        ModelLoad::Loaded(model) => {
            let ghost before_b = errors@;
            match bini_load {
                LoadedIni::Parsed(f) => {
                    push_buildingini_errors(f, model, errors);
                    proof {
                        let nv = node_violations(building_tokens(*f), *model);
                        assert forall|k: int|
                            before_b.len() <= k < errors@.len() implies #[trigger] errors@[k]@
                            == (ViolationS::NodeNotFound {
                            token_text: nv[k - before_b.len()].ser_spec(),
                        }) by {
                            let j = k - before_b.len();
                            assert(match errors@[before_b.len() + j] {
                                Violation::NodeNotFound { token_text } => token_text@
                                    == nv[j].ser_spec(),
                                _ => false,
                            });
                            assert(errors@[before_b.len() + j] == errors@[k]);
                        }
                        reveal(bini_viols);
                        assert(report_views(errors@) =~= report_views(before_b) + bini_viols(
                            def.building_ini@,
                            *model,
                            gfiles.building_ini,
                        ));
                    }
                },
                LoadedIni::ParseFailed(errs) => {
                    let p = range_text(&def.building_ini, 0, def.building_ini.len());
                    let e = copy_errs(errs);
                    proof {
                        assert(p@ =~= def.building_ini@);
                    }
                    errors.push(Violation::ParseFailed { path: p, errors: e });
                    proof {
                        reveal(bini_viols);
                        assert(report_views(errors@) =~= report_views(before_b) + bini_viols(
                            def.building_ini@,
                            *model,
                            gfiles.building_ini,
                        ));
                    }
                },
                LoadedIni::Unreadable => {
                    let p = range_text(&def.building_ini, 0, def.building_ini.len());
                    proof {
                        assert(p@ =~= def.building_ini@);
                    }
                    errors.push(Violation::FileUnreadable { path: p });
                    proof {
                        reveal(bini_viols);
                        assert(report_views(errors@) =~= report_views(before_b) + bini_viols(
                            def.building_ini@,
                            *model,
                            gfiles.building_ini,
                        ));
                    }
                },
            }
            let ghost before_m = errors@;
            match mat_load {
                LoadedIni::Parsed(f) => {
                    push_mtl_errors(f, model, errors, MtlFile::Primary);
                    proof {
                        let uv = mtl_violations_from(*model, material_tokens(*f), 0);
                        assert forall|k: int|
                            before_m.len() <= k < errors@.len() implies #[trigger] errors@[k]@
                            == (ViolationS::SubmaterialNotCovered {
                            name: model.submaterials@[uv[k - before_m.len()]].name@,
                            file: MtlFile::Primary,
                        }) by {
                            let j = k - before_m.len();
                            assert(match errors@[before_m.len() + j] {
                                Violation::SubmaterialNotCovered { name, file: fl } => name@
                                    == model.submaterials@[uv[j]].name@ && fl
                                    == MtlFile::Primary,
                                _ => false,
                            });
                            assert(errors@[before_m.len() + j] == errors@[k]);
                        }
                        reveal(mtl_viols);
                        assert(report_views(errors@) =~= report_views(before_m) + mtl_viols(
                            def.material@,
                            *model,
                            gfiles.material,
                            MtlFile::Primary,
                        ));
                    }
                },
                LoadedIni::ParseFailed(errs) => {
                    let p = range_text(&def.material, 0, def.material.len());
                    let e = copy_errs(errs);
                    proof {
                        assert(p@ =~= def.material@);
                    }
                    errors.push(Violation::ParseFailed { path: p, errors: e });
                    proof {
                        reveal(mtl_viols);
                        assert(report_views(errors@) =~= report_views(before_m) + mtl_viols(
                            def.material@,
                            *model,
                            gfiles.material,
                            MtlFile::Primary,
                        ));
                    }
                },
                LoadedIni::Unreadable => {
                    let p = range_text(&def.material, 0, def.material.len());
                    proof {
                        assert(p@ =~= def.material@);
                    }
                    errors.push(Violation::FileUnreadable { path: p });
                    proof {
                        reveal(mtl_viols);
                        assert(report_views(errors@) =~= report_views(before_m) + mtl_viols(
                            def.material@,
                            *model,
                            gfiles.material,
                            MtlFile::Primary,
                        ));
                    }
                },
            }
            let ghost before_me = errors@;
            match &def.material_e {
                Option::Some(me) => {
                    match mate_load {
                        LoadedIni::Parsed(f) => {
                            push_mtl_errors(f, model, errors, MtlFile::Emissive);
                            proof {
                                let uv = mtl_violations_from(*model, material_tokens(*f), 0);
                                assert forall|k: int|
                                    before_me.len() <= k < errors@.len() implies
                                    #[trigger] errors@[k]@ == (
                                ViolationS::SubmaterialNotCovered {
                                    name: model.submaterials@[uv[k - before_me.len()]].name@,
                                    file: MtlFile::Emissive,
                                }) by {
                                    let j = k - before_me.len();
                                    assert(match errors@[before_me.len() + j] {
                                        Violation::SubmaterialNotCovered { name, file: fl } =>
                                            name@ == model.submaterials@[uv[j]].name@ && fl
                                            == MtlFile::Emissive,
                                        _ => false,
                                    });
                                    assert(errors@[before_me.len() + j] == errors@[k]);
                                }
                                reveal(mtl_viols);
                                assert(report_views(errors@) =~= report_views(before_me)
                                    + mtl_viols(me@, *model, gfiles.material_e, MtlFile::Emissive));
                            }
                        },
                        LoadedIni::ParseFailed(errs) => {
                            let p = range_text(me, 0, me.len());
                            let e = copy_errs(errs);
                            proof {
                                assert(p@ =~= me@);
                            }
                            errors.push(Violation::ParseFailed { path: p, errors: e });
                            proof {
                                reveal(mtl_viols);
                                assert(report_views(errors@) =~= report_views(before_me)
                                    + mtl_viols(me@, *model, gfiles.material_e, MtlFile::Emissive));
                            }
                        },
                        LoadedIni::Unreadable => {
                            let p = range_text(me, 0, me.len());
                            proof {
                                assert(p@ =~= me@);
                            }
                            errors.push(Violation::FileUnreadable { path: p });
                            proof {
                                reveal(mtl_viols);
                                assert(report_views(errors@) =~= report_views(before_me)
                                    + mtl_viols(me@, *model, gfiles.material_e, MtlFile::Emissive));
                            }
                        },
                    }
                },
                Option::None => {},
            }
            proof {
                reveal(model_viols);
                assert(report_views(errors@) =~= report_views(entry) + model_viols(
                    *def,
                    gfiles,
                ));
            }
        },
        ModelLoad::Unreadable => {
            errors.push(Violation::ModelUnreadable);
            proof {
                reveal(model_viols);
                assert(report_views(errors@) =~= report_views(entry) + model_viols(
                    *def,
                    gfiles,
                ));
            }
        },
        ModelLoad::DecodeFailed => {
            errors.push(Violation::ModelDecodeFailed);
            proof {
                reveal(model_viols);
                assert(report_views(errors@) =~= report_views(entry) + model_viols(
                    *def,
                    gfiles,
                ));
            }
        },
        ModelLoad::TrailingBytes { extra } => {
            errors.push(Violation::ModelTrailingBytes { extra: *extra });
            proof {
                reveal(model_viols);
                assert(report_views(errors@) =~= report_views(entry) + model_viols(
                    *def,
                    gfiles,
                ));
            }
        },
    }
}

proof fn lemma_tex_missing_empty(textures: Seq<Vec<char>>, exist: Seq<bool>, i: int)
    requires
        0 <= i <= exist.len(),
    ensures
        (tex_missing(textures, exist, i).len() == 0) <==> (forall|j: int|
            i <= j < exist.len() ==> #[trigger] exist[j]),
    decreases exist.len() - i,
{
    reveal_with_fuel(tex_missing, 2);
    if i < exist.len() {
        lemma_tex_missing_empty(textures, exist, i + 1);
    }
}

/// A building validates cleanly exactly when its report is empty.
proof fn lemma_clean_iff_empty(def: BuildingDef, files: SourceData)
    ensures
        validation_clean(def, files) <==> report_spec(def, files).len() == 0,
{
    reveal(report_spec);
    reveal(path_viols);
    reveal(flag_viols);
    reveal(model_viols);
    reveal(bini_viols);
    reveal(mtl_viols);
    lemma_tex_missing_empty(def.textures@, files.textures_exist@, 0);
}

impl BuildingDef {
    /// Validate one building against what was found on disk, collecting
    /// every finding instead of stopping at the first: the report is
    /// exactly `report_spec` — every missing path, then the model findings
    /// — and it is empty exactly when the building is consistent.
    pub fn parse_and_validate(&self, files: SourceData) -> (r: Result<(), Vec<Violation>>)
        ensures
            r is Ok <==> validation_clean(*self, files),
            (match r {
                Result::Ok(()) => report_spec(*self, files).len() == 0,
                Result::Err(v) => report_views(v@) == report_spec(*self, files) && v@.len() >= 1,
            }),
    {
        let ghost gfiles = files;
        let SourceData {
            building_ini_exists: x_bi,
            renderconfig_exists: x_rc,
            model_exists: x_mo,
            model_lod_exists: x_l1,
            model_lod2_exists: x_l2,
            model_e_exists: x_me,
            material_exists: x_ma,
            material_e_exists: x_mae,
            textures_exist,
            model: model_load,
            building_ini: bini_load,
            material: mat_load,
            material_e: mate_load,
        } = files;
        let mut errors: Vec<Violation> = Vec::new();
        push_missing_paths(
            self,
            x_bi,
            x_rc,
            x_mo,
            x_l1,
            x_l2,
            x_me,
            x_ma,
            x_mae,
            &textures_exist,
            &mut errors,
            Ghost(gfiles),
        );
        push_model_viols(
            self,
            &model_load,
            &bini_load,
            &mat_load,
            &mate_load,
            &mut errors,
            Ghost(gfiles),
        );
        proof {
            reveal(report_spec);
            assert(report_views(errors@) =~= report_spec(*self, gfiles));
            lemma_clean_iff_empty(*self, gfiles);
        }
        if errors.len() == 0 {
            Ok(())
        } else {
            Err(errors)
        }
    }
}

fn copy_errs(errs: &Vec<(Span, ParseError)>) -> (r: Vec<(Span, ParseError)>)
    ensures
        r@.len() == errs@.len(),
        parse_errs_view(r@) == parse_errs_view(errs@),
{
    let mut r: Vec<(Span, ParseError)> = Vec::new();
    let mut i: usize = 0;
    while i < errs.len()
        invariant
            i <= errs@.len(),
            r@.len() == i,
            forall|j: int|
                0 <= j < i ==> (#[trigger] r@[j]).0 == errs@[j].0 && r@[j].1.chunk@
                    == errs@[j].1.chunk@,
        decreases errs@.len() - i,
    {
        let (sp, e) = &errs[i];
        let chunk = range_text(&e.chunk, 0, e.chunk.len());
        assert(chunk@ =~= errs@[i as int].1.chunk@);
        r.push((*sp, ParseError { chunk }));
        i += 1;
    }
    proof {
        assert(parse_errs_view(r@) =~= parse_errs_view(errs@));
    }
    r
}

fn contains_text(v: &Vec<Vec<char>>, p: &Vec<char>) -> (r: bool)
    ensures
        r == (exists|k: int| 0 <= k < v@.len() && (#[trigger] v@[k])@ == p@),
{
    let mut j: usize = 0;
    while j < v.len()
        invariant
            j <= v@.len(),
            forall|k: int| 0 <= k < j ==> (#[trigger] v@[k])@ != p@,
        decreases v@.len() - j,
    {
        if text_eq(&v[j], p) {
            assert(v@[j as int]@ == p@);
            return true;
        }
        j += 1;
    }
    false
}

/// Resolve and append the texture paths of a material file, skipping
/// paths already present.
pub open spec fn add_textures_spec(
    acc: Seq<Seq<char>>,
    toks: Seq<material::Token>,
    stock: Seq<char>,
    dir: Seq<char>,
) -> Seq<Seq<char>>
    decreases toks.len(),
{
    if toks.len() == 0 {
        acc
    } else {
        let acc2 = match material::texture_path_of(toks[0], stock, dir) {
            Option::Some(p) => if acc.contains(p) {
                acc
            } else {
                acc.push(p)
            },
            Option::None => acc,
        };
        add_textures_spec(acc2, toks.skip(1), stock, dir)
    }
}

/// Append every texture path of `mtl` that is not already listed.
pub fn push_textures(
    textures: &mut Vec<Vec<char>>,
    mtl: &IniFile<material::Token>,
    stock_root: &Vec<char>,
    mtl_dir: &Vec<char>,
)
    ensures
        final(textures)@.map_values(|p: Vec<char>| p@) == add_textures_spec(
            old(textures)@.map_values(|p: Vec<char>| p@),
            material_tokens(*mtl),
            stock_root@,
            mtl_dir@,
        ),
{
    let ghost toks = material_tokens(*mtl);
    let n = mtl.toks.len();
    let mut i: usize = 0;
    proof {
        assert(toks.skip(0) =~= toks);
    }
    while i < n
        invariant
            i <= n == mtl.toks@.len(),
            toks == material_tokens(*mtl),
            add_textures_spec(
                old(textures)@.map_values(|p: Vec<char>| p@),
                toks,
                stock_root@,
                mtl_dir@,
            ) == add_textures_spec(
                textures@.map_values(|p: Vec<char>| p@),
                toks.skip(i as int),
                stock_root@,
                mtl_dir@,
            ),
        decreases n - i,
    {
        proof {
            assert(toks.skip(i as int)[0] == toks[i as int]);
            assert(toks.skip(i as int).skip(1) =~= toks.skip(i as int + 1));
            assert(toks[i as int] == *mtl.toks@[i as int].1.get());
        }
        let t = mtl.toks[i].1.token();
        let path: Option<Vec<char>> = match t {
            material::Token::Texture((_, p)) => Some(path_join(stock_root, p)),
            material::Token::TextureNoMip((_, p)) => Some(path_join(stock_root, p)),
            material::Token::TextureMtl((_, p)) => Some(path_join(mtl_dir, p)),
            material::Token::TextureNoMipMtl((_, p)) => Some(path_join(mtl_dir, p)),
            material::Token::Submaterial(_) => None,
        };
        match path {
            Option::Some(p) => {
                proof {
                    assert(material::texture_path_of(toks[i as int], stock_root@, mtl_dir@)
                        == Option::Some(p@));
                }
                let dup = contains_text(textures, &p);
                let ghost tv = textures@.map_values(|q: Vec<char>| q@);
                proof {
                    if dup {
                        let k = choose|k: int|
                            0 <= k < textures@.len() && (#[trigger] textures@[k])@ == p@;
                        assert(tv[k] == p@);
                        assert(tv.contains(p@));
                    } else {
                        assert forall|k: int| 0 <= k < tv.len() implies #[trigger] tv[k]
                            != p@ by {
                            assert(tv[k] == textures@[k]@);
                        }
                        assert(!tv.contains(p@));
                    }
                }
                if !dup {
                    let ghost prev = textures@;
                    textures.push(p);
                    proof {
                        assert(textures@.map_values(|q: Vec<char>| q@) =~= tv.push(
                            textures@.last()@,
                        ));
                    }
                }
            },
            Option::None => {
                proof {
                    assert(material::texture_path_of(toks[i as int], stock_root@, mtl_dir@)
                        is None);
                }
            },
        }
        i += 1;
    }
    proof {
        assert(toks.skip(n as int) =~= Seq::<material::Token>::empty());
    }
}

} // verus!
