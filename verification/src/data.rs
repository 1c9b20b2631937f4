//! Building source data: resolved asset paths, texture bindings, skins,
//! and the submaterial-usage check of a definition against its model.

use vstd::prelude::*;
use crate::scan::Span;
use crate::ini::{IniFile, IniTokenState};
use crate::material;
use crate::render;
use crate::nmf::{
    Nmf, ModelPatch, PatchError, live_flag, patch_name_missing, patch_count_mismatch,
};
use crate::paths::{join_spec, parent_spec, path_join, path_parent};
use crate::text::{text_eq, chars_of, range_text};
use crate::building_def::BuildingError;

verus! {

/// The tool's fixed configuration: where the stock game files and the
/// workshop downloads live.
pub struct Settings {
    pub path_stock: Vec<char>,
    pub path_workshop: Vec<char>,
}

/// A value grepped out of a configuration file together with the byte
/// range it came from.
pub struct IniToken<T> {
    pub start: usize,
    pub end: usize,
    pub value: T,
}

pub type IniTokenPath = IniToken<Vec<char>>;

pub type IniTokenTexture = IniToken<Texture>;

/// One texture-slot binding with its resolved path.
pub struct Texture {
    pub num: u32,
    pub path: Vec<char>,
}

/// Where a building's render manifest comes from: the stock game data
/// (keyed into the shared buffer) or a mod-local file.
pub enum RenderConfig {
    Stock { key: Vec<char>, data: Vec<char> },
    Mod(Vec<char>),
}

impl RenderConfig {
    /// The directory every relative asset path resolves against.
    pub fn root_path(&self, settings: &Settings) -> (r: Vec<char>)
        ensures
            match self {
                RenderConfig::Stock { .. } => r@ == settings.path_stock@,
                RenderConfig::Mod(p) => r@ == parent_spec(p@),
            },
    {
        match self {
            RenderConfig::Stock { .. } => {
                let r = range_text(&settings.path_stock, 0, settings.path_stock.len());
                assert(r@ =~= settings.path_stock@);
                r
            },
            RenderConfig::Mod(p) => path_parent(p),
        }
    }
}

/// A model reference with an optional object filter.
pub struct ModelDef {
    pub ini_token: IniTokenPath,
    pub patch: Option<ModelPatch>,
}

impl ModelDef {
    pub fn new(ini_token: IniTokenPath) -> (r: ModelDef)
        ensures
            r.ini_token == ini_token,
            r.patch is None,
    {
        ModelDef { ini_token, patch: None }
    }
}

/// A material reference together with its texture bindings.
pub struct MaterialDef {
    pub render_token: IniTokenPath,
    pub textures: Vec<IniTokenTexture>,
}

impl MaterialDef {
    pub fn new(render_token: IniTokenPath, textures: Vec<IniTokenTexture>) -> (r: MaterialDef)
        ensures
            r.render_token == render_token,
            r.textures == textures,
    {
        MaterialDef { render_token, textures }
    }
}

/// One alternate material set for a building.
pub struct Skin {
    pub material: SkinMaterial,
    pub material_emissive: Option<SkinMaterial>,
}

pub struct SkinMaterial {
    pub path: Vec<char>,
    pub textures: Vec<IniTokenTexture>,
}

/// The three path prefixes of skin and source references.
#[derive(Clone, Copy, PartialEq, Eq, Structural, Debug)]
pub enum PathPrefix {
    Stock,
    Workshop,
    CurrentDir,
}

impl PathPrefix {
    /// Recognize `~/`, `$/` or `./`; anything else is refused with a
    /// message naming the offending prefix.
    pub fn parse(s: &Vec<char>) -> (r: Result<PathPrefix, Vec<char>>)
        ensures
            ({
                if s@ == "~/"@ {
                    r == Result::<PathPrefix, Vec<char>>::Ok(PathPrefix::Stock)
                } else if s@ == "$/"@ {
                    r == Result::<PathPrefix, Vec<char>>::Ok(PathPrefix::Workshop)
                } else if s@ == "./"@ {
                    r == Result::<PathPrefix, Vec<char>>::Ok(PathPrefix::CurrentDir)
                } else {
                    r is Err && r->Err_0@ == "Unknown path prefix '"@ + s@ + "'"@
                }
            }),
    {
        if text_eq(s, &chars_of("~/")) {
            Ok(PathPrefix::Stock)
        } else if text_eq(s, &chars_of("$/")) {
            Ok(PathPrefix::Workshop)
        } else if text_eq(s, &chars_of("./")) {
            Ok(PathPrefix::CurrentDir)
        } else {
            let mut msg = chars_of("Unknown path prefix '");
            let mut c = range_text(s, 0, s.len());
            msg.append(&mut c);
            msg.push('\'');
            proof {
                reveal_strlit("Unknown path prefix '");
                reveal_strlit("'");
                assert(msg@ =~= "Unknown path prefix '"@ + s@ + "'"@);
            }
            Err(msg)
        }
    }
}

/// Resolve a prefixed path: `~` under the stock root, `$` under the
/// workshop root, `.` under the local directory.
pub fn resolve_prefixed_path(
    pfx: PathPrefix,
    path: &Vec<char>,
    local_root: &Vec<char>,
    settings: &Settings,
) -> (r: Vec<char>)
    ensures
        match pfx {
            PathPrefix::Stock => r@ == join_spec(settings.path_stock@, path@),
            PathPrefix::Workshop => r@ == join_spec(settings.path_workshop@, path@),
            PathPrefix::CurrentDir => r@ == join_spec(local_root@, path@),
        },
{
    match pfx {
        PathPrefix::Stock => path_join(&settings.path_stock, path),
        PathPrefix::Workshop => path_join(&settings.path_workshop, path),
        PathPrefix::CurrentDir => path_join(local_root, path),
    }
}

/// An entry of the stock-building cache: raw manifest text, parsed at
/// most once.
pub enum StockBuilding {
    Unparsed(Vec<char>),
    Parsed(BuildingDef),
}

/// A building definition of the batch installer, with stock-aware paths
/// and skins.
pub struct BuildingDef {
    pub render_config: RenderConfig,
    pub building_ini: Vec<char>,
    pub bbox: Vec<char>,
    pub fire: Option<Vec<char>>,
    pub imagegui: Option<Vec<char>>,
    pub model: ModelDef,
    pub model_lod1: Option<ModelDef>,
    pub model_lod2: Option<ModelDef>,
    pub model_emissive: Option<ModelDef>,
    pub material: MaterialDef,
    pub material_emissive: Option<MaterialDef>,
    pub skins: Vec<Skin>,
}

/// `None`, or a path that was checked and found present.
pub fn path_option_valid(exists: &Option<bool>) -> (r: bool)
    ensures
        r == (match exists {
            Option::None => true,
            Option::Some(b) => *b,
        }),
{
    match exists {
        Option::None => true,
        Option::Some(b) => *b,
    }
}

/// The texture tokens of a material file, each with its source range and
/// its resolved path: plain slots resolve under the stock root, `_MTL`
/// slots under the material's own directory.
pub open spec fn tex_token_spec(
    items: Seq<(Span, IniTokenState<material::Token>)>,
    stock: Seq<char>,
    dir: Seq<char>,
) -> Seq<(Span, u32, Seq<char>)>
    decreases items.len(),
{
    if items.len() == 0 {
        Seq::empty()
    } else {
        (match *items[0].1.get() {
            material::Token::Texture((n, p)) => seq![(items[0].0, n, join_spec(stock, p@))],
            material::Token::TextureNoMip((n, p)) => seq![
                (items[0].0, n, join_spec(stock, p@)),
            ],
            material::Token::TextureMtl((n, p)) => seq![(items[0].0, n, join_spec(dir, p@))],
            material::Token::TextureNoMipMtl((n, p)) => seq![
                (items[0].0, n, join_spec(dir, p@)),
            ],
            material::Token::Submaterial(_) => Seq::empty(),
        }) + tex_token_spec(items.skip(1), stock, dir)
    }
}

/// Extract the texture tokens of a parsed material file.
pub fn get_texture_tokens(
    mtl: &IniFile<material::Token>,
    mtl_dir: &Vec<char>,
    settings: &Settings,
) -> (r: Vec<IniTokenTexture>)
    ensures
        ({
            let ts = tex_token_spec(mtl.toks@, settings.path_stock@, mtl_dir@);
            &&& r@.len() == ts.len()
            &&& forall|j: int|
                0 <= j < ts.len() ==> (#[trigger] r@[j]).start == ts[j].0.start && r@[j].end
                    == ts[j].0.end && r@[j].value.num == ts[j].1 && r@[j].value.path@ == ts[j].2
        }),
{
    let ghost items = mtl.toks@;
    let ghost full = tex_token_spec(items, settings.path_stock@, mtl_dir@);
    let mut r: Vec<IniTokenTexture> = Vec::new();
    let ghost mut donelen: int = 0;
    let n = mtl.toks.len();
    let mut i: usize = 0;
    proof {
        assert(items.skip(0) =~= items);
    }
    while i < n
        invariant
            i <= n == items.len(),
            items == mtl.toks@,
            full == tex_token_spec(items, settings.path_stock@, mtl_dir@),
            r@.len() <= full.len(),
            full == full.take(r@.len() as int) + tex_token_spec(
                items.skip(i as int),
                settings.path_stock@,
                mtl_dir@,
            ),
            forall|j: int|
                0 <= j < r@.len() ==> (#[trigger] r@[j]).start == full[j].0.start && r@[j].end
                    == full[j].0.end && r@[j].value.num == full[j].1 && r@[j].value.path@
                    == full[j].2,
        decreases n - i,
    {
        proof {
            assert(items.skip(i as int)[0] == items[i as int]);
            assert(items.skip(i as int).skip(1) =~= items.skip(i as int + 1));
        }
        let sp = mtl.toks[i].0;
        let t = mtl.toks[i].1.token();
        let item: Option<(u32, Vec<char>)> = match t {
            material::Token::Texture((n2, p)) => Some((*n2, path_join(&settings.path_stock, p))),
            material::Token::TextureNoMip((n2, p)) => Some(
                (*n2, path_join(&settings.path_stock, p)),
            ),
            material::Token::TextureMtl((n2, p)) => Some((*n2, path_join(mtl_dir, p))),
            material::Token::TextureNoMipMtl((n2, p)) => Some((*n2, path_join(mtl_dir, p))),
            material::Token::Submaterial(_) => None,
        };
        match item {
            Option::Some((num, path)) => {
                let ghost oldr = r@;
                proof {
                    assert(tex_token_spec(items.skip(i as int), settings.path_stock@, mtl_dir@)
                        == seq![(items[i as int].0, num, path@)] + tex_token_spec(
                        items.skip(i as int + 1),
                        settings.path_stock@,
                        mtl_dir@,
                    ));
                    assert(full[oldr.len() as int] == (items[i as int].0, num, path@)) by {
                        assert(full.take(oldr.len() as int + 1) =~= full.take(
                            oldr.len() as int,
                        ).push(full[oldr.len() as int]));
                        assert(full == full.take(oldr.len() as int) + (seq![
                            (items[i as int].0, num, path@),
                        ] + tex_token_spec(
                            items.skip(i as int + 1),
                            settings.path_stock@,
                            mtl_dir@,
                        )));
                    }
                    assert(full.take(oldr.len() as int + 1) + tex_token_spec(
                        items.skip(i as int + 1),
                        settings.path_stock@,
                        mtl_dir@,
                    ) =~= full);
                }
                r.push(IniToken { start: sp.start, end: sp.end, value: Texture { num, path } });
            },
            Option::None => {
                proof {
                    assert(tex_token_spec(items.skip(i as int), settings.path_stock@, mtl_dir@)
                        == tex_token_spec(
                        items.skip(i as int + 1),
                        settings.path_stock@,
                        mtl_dir@,
                    ));
                }
            },
        }
        i += 1;
    }
    proof {
        assert(tex_token_spec(items.skip(n as int), settings.path_stock@, mtl_dir@)
            =~= Seq::<(Span, u32, Seq<char>)>::empty());
        assert(full.take(r@.len() as int) =~= full);
    }
    r
}

} // verus!

verus! {

/// The live flags a patch induces on a model's objects.
pub open spec fn live_seq(m: Nmf, p: Option<ModelPatch>) -> Seq<bool> {
    Seq::new(m.objects@.len(), |i: int| live_flag(p, m.objects@[i]))
}

/// Submaterial `s` is referenced by an object that the patch leaves live.
pub open spec fn used_with_patch(m: Nmf, p: Option<ModelPatch>, s: int) -> bool {
    crate::nmf::sub_used(m, live_seq(m, p), s)
}

/// The indices of the submaterials in use, in order, from `s` on.
pub open spec fn used_sub_indices(m: Nmf, p: Option<ModelPatch>, s: int) -> Seq<int>
    decreases m.submaterials@.len() - s when 0 <= s <= m.submaterials@.len()
{
    if s >= m.submaterials@.len() {
        Seq::empty()
    } else {
        (if used_with_patch(m, p, s) {
            seq![s]
        } else {
            Seq::empty()
        }) + used_sub_indices(m, p, s + 1)
    }
}

impl BuildingDef {
    /// The names of the submaterials actually used by the model's live
    /// objects, applying the definition's object patch; fails exactly when
    /// the patch does not fit the model.
    pub fn validate(&self, model: &Nmf) -> (r: Result<Vec<Vec<char>>, PatchError>)
        ensures
            ({
                let p = self.model.patch;
                match r {
                    Result::Ok(names) => {
                        let uv = used_sub_indices(*model, p, 0);
                        &&& names@.len() == uv.len()
                        &&& forall|j: int|
                            0 <= j < uv.len() ==> (#[trigger] names@[j])@
                                == model.submaterials@[uv[j]].name@
                    },
                    Result::Err(PatchError::ObjectNotFound(nm)) => patch_name_missing(
                        *model,
                        p,
                        nm@,
                    ),
                    Result::Err(PatchError::RemoveCountMismatch { expected, actual }) =>
                        patch_count_mismatch(*model, p, expected as int, actual as int),
                }
            }),
    {
        let live = match crate::nmf::live_objects(model, &self.model.patch) {
            Result::Ok(l) => l,
            Result::Err(e) => {
                return Err(e);
            },
        };
        let usage = crate::nmf::compute_usage(model, &live);
        proof {
            assert forall|s: int| 0 <= s < model.submaterials@.len() implies #[trigger] usage@[s]
                == used_with_patch(*model, self.model.patch, s) by {
                let lv = live_seq(*model, self.model.patch);
                assert(forall|i: int| 0 <= i < lv.len() ==> #[trigger] lv[i] == live@[i]);
                if crate::nmf::sub_used(*model, live@, s) {
                    let w = choose|i: int|
                        0 <= i < model.objects@.len() && live@[i] && match (
                        #[trigger] model.objects@[i]).submaterial_idx {
                            Option::Some(x) => x as int == s,
                            Option::None => false,
                        };
                    assert(lv[w]);
                    assert(crate::nmf::sub_used(*model, lv, s));
                }
                if crate::nmf::sub_used(*model, lv, s) {
                    let w = choose|i: int|
                        0 <= i < model.objects@.len() && lv[i] && match (
                        #[trigger] model.objects@[i]).submaterial_idx {
                            Option::Some(x) => x as int == s,
                            Option::None => false,
                        };
                    assert(live@[w]);
                    assert(crate::nmf::sub_used(*model, live@, s));
                }
            }
        }
        let mut names: Vec<Vec<char>> = Vec::new();
        let ghost mut done: Seq<int> = Seq::empty();
        let n = model.submaterials.len();
        let mut s: usize = 0;
        while s < n
            invariant
                s <= n == model.submaterials@.len(),
                usage@.len() == n,
                forall|t: int|
                    0 <= t < n ==> #[trigger] usage@[t] == used_with_patch(
                        *model,
                        self.model.patch,
                        t,
                    ),
                used_sub_indices(*model, self.model.patch, 0) == done + used_sub_indices(
                    *model,
                    self.model.patch,
                    s as int,
                ),
                names@.len() == done.len(),
                forall|j: int|
                    0 <= j < done.len() ==> (#[trigger] names@[j])@
                        == model.submaterials@[done[j]].name@,
            decreases n - s,
        {
            if usage[s] {
                let nm = range_text(
                    &model.submaterials[s].name,
                    0,
                    model.submaterials[s].name.len(),
                );
                proof {
                    assert(nm@ =~= model.submaterials@[s as int].name@);
                }
                let ghost old_names = names@;
                names.push(nm);
                proof {
                    let old_done = done;
                    done = done + seq![s as int];
                    assert(done + used_sub_indices(*model, self.model.patch, s as int + 1)
                        =~= old_done + (seq![s as int] + used_sub_indices(
                        *model,
                        self.model.patch,
                        s as int + 1,
                    )));
                    assert forall|j: int| 0 <= j < done.len() implies (#[trigger] names@[j])@
                        == model.submaterials@[done[j]].name@ by {
                        if j < old_done.len() {
                            assert(names@[j] == old_names[j]);
                        } else {
                            assert(names@[j] == names@.last());
                        }
                    }
                }
            } else {
                proof {
                    assert(used_sub_indices(*model, self.model.patch, s as int)
                        == used_sub_indices(*model, self.model.patch, s as int + 1));
                }
            }
            s += 1;
        }
        Ok(names)
    }
}

} // verus!

verus! {

pub open spec fn first_model_tok(items: Seq<(Span, IniTokenState<render::Token>)>) -> Option<
    (Span, Seq<char>),
>
    decreases items.len(),
{
    if items.len() == 0 {
        Option::None
    } else {
        match *items[0].1.get() {
            render::Token::Model(p) => Option::Some((items[0].0, p@)),
            _ => first_model_tok(items.skip(1)),
        }
    }
}

pub open spec fn first_model_lod_tok(items: Seq<(Span, IniTokenState<render::Token>)>) -> Option<
    (Span, Seq<char>),
>
    decreases items.len(),
{
    if items.len() == 0 {
        Option::None
    } else {
        match *items[0].1.get() {
            render::Token::ModelLod((p, _)) => Option::Some((items[0].0, p@)),
            _ => first_model_lod_tok(items.skip(1)),
        }
    }
}

pub open spec fn first_model_lod2_tok(items: Seq<(Span, IniTokenState<render::Token>)>) -> Option<
    (Span, Seq<char>),
>
    decreases items.len(),
{
    if items.len() == 0 {
        Option::None
    } else {
        match *items[0].1.get() {
            render::Token::ModelLod2((p, _)) => Option::Some((items[0].0, p@)),
            _ => first_model_lod2_tok(items.skip(1)),
        }
    }
}

pub open spec fn first_model_e_tok(items: Seq<(Span, IniTokenState<render::Token>)>) -> Option<
    (Span, Seq<char>),
>
    decreases items.len(),
{
    if items.len() == 0 {
        Option::None
    } else {
        match *items[0].1.get() {
            render::Token::ModelEmissive(p) => Option::Some((items[0].0, p@)),
            _ => first_model_e_tok(items.skip(1)),
        }
    }
}

pub open spec fn first_material_tok(items: Seq<(Span, IniTokenState<render::Token>)>) -> Option<
    (Span, Seq<char>),
>
    decreases items.len(),
{
    if items.len() == 0 {
        Option::None
    } else {
        match *items[0].1.get() {
            render::Token::Material(p) => Option::Some((items[0].0, p@)),
            _ => first_material_tok(items.skip(1)),
        }
    }
}

pub open spec fn first_material_e_tok(items: Seq<(Span, IniTokenState<render::Token>)>) -> Option<
    (Span, Seq<char>),
>
    decreases items.len(),
{
    if items.len() == 0 {
        Option::None
    } else {
        match *items[0].1.get() {
            render::Token::MaterialEmissive(p) => Option::Some((items[0].0, p@)),
            _ => first_material_e_tok(items.skip(1)),
        }
    }
}

} // verus!
verus! {

/// Grep the first token of each kind out of a parsed render manifest,
/// with its source range.
#[verifier::rlimit(100)]
fn grep_render_tokens(render_ini: &IniFile<render::Token>) -> (r: (
    Option<(Span, Vec<char>)>,
    Option<(Span, Vec<char>)>,
    Option<(Span, Vec<char>)>,
    Option<(Span, Vec<char>)>,
    Option<(Span, Vec<char>)>,
    Option<(Span, Vec<char>)>,
))
    ensures
        ({
            let items = render_ini.toks@;
            &&& (match r.0 {
                Option::Some((sp, p)) => first_model_tok(items) == Option::Some((sp, p@)),
                Option::None => first_model_tok(items) is None,
            })
            &&& (match r.1 {
                Option::Some((sp, p)) => first_model_lod_tok(items) == Option::Some((sp, p@)),
                Option::None => first_model_lod_tok(items) is None,
            })
            &&& (match r.2 {
                Option::Some((sp, p)) => first_model_lod2_tok(items) == Option::Some((sp, p@)),
                Option::None => first_model_lod2_tok(items) is None,
            })
            &&& (match r.3 {
                Option::Some((sp, p)) => first_model_e_tok(items) == Option::Some((sp, p@)),
                Option::None => first_model_e_tok(items) is None,
            })
            &&& (match r.4 {
                Option::Some((sp, p)) => first_material_tok(items) == Option::Some((sp, p@)),
                Option::None => first_material_tok(items) is None,
            })
            &&& (match r.5 {
                Option::Some((sp, p)) => first_material_e_tok(items) == Option::Some((sp, p@)),
                Option::None => first_material_e_tok(items) is None,
            })
        }),
{
    let ghost items = render_ini.toks@;
    let mut model: Option<(Span, Vec<char>)> = None;
    let mut lod: Option<(Span, Vec<char>)> = None;
    let mut lod2: Option<(Span, Vec<char>)> = None;
    let mut me: Option<(Span, Vec<char>)> = None;
    let mut mat: Option<(Span, Vec<char>)> = None;
    let mut mat_e: Option<(Span, Vec<char>)> = None;
    let n = render_ini.toks.len();
    let mut i: usize = 0;
    proof {
        assert(items.skip(0) =~= items);
    }
    while i < n
        invariant
            i <= n == items.len(),
            items == render_ini.toks@,
            (match model {
                Option::Some((sp, p)) => first_model_tok(items) == Option::Some((sp, p@)),
                Option::None => first_model_tok(items) == first_model_tok(
                    items.skip(i as int),
                ),
            }),
            (match lod {
                Option::Some((sp, p)) => first_model_lod_tok(items) == Option::Some((sp, p@)),
                Option::None => first_model_lod_tok(items) == first_model_lod_tok(
                    items.skip(i as int),
                ),
            }),
            (match lod2 {
                Option::Some((sp, p)) => first_model_lod2_tok(items) == Option::Some((sp, p@)),
                Option::None => first_model_lod2_tok(items) == first_model_lod2_tok(
                    items.skip(i as int),
                ),
            }),
            (match me {
                Option::Some((sp, p)) => first_model_e_tok(items) == Option::Some((sp, p@)),
                Option::None => first_model_e_tok(items) == first_model_e_tok(
                    items.skip(i as int),
                ),
            }),
            (match mat {
                Option::Some((sp, p)) => first_material_tok(items) == Option::Some((sp, p@)),
                Option::None => first_material_tok(items) == first_material_tok(
                    items.skip(i as int),
                ),
            }),
            (match mat_e {
                Option::Some((sp, p)) => first_material_e_tok(items) == Option::Some((sp, p@)),
                Option::None => first_material_e_tok(items) == first_material_e_tok(
                    items.skip(i as int),
                ),
            }),
        decreases n - i,
    {
        proof {
            assert(items.skip(i as int)[0] == items[i as int]);
            assert(items.skip(i as int).skip(1) =~= items.skip(i as int + 1));
        }
        let sp = render_ini.toks[i].0;
        let t = render_ini.toks[i].1.token();
        match t {
            render::Token::Model(p) => {
                if model.is_none() {
                    let c = range_text(p, 0, p.len());
                    assert(c@ =~= p@);
                    model = Some((sp, c));
                }
            },
            render::Token::ModelLod((p, _)) => {
                if lod.is_none() {
                    let c = range_text(p, 0, p.len());
                    assert(c@ =~= p@);
                    lod = Some((sp, c));
                }
            },
            render::Token::ModelLod2((p, _)) => {
                if lod2.is_none() {
                    let c = range_text(p, 0, p.len());
                    assert(c@ =~= p@);
                    lod2 = Some((sp, c));
                }
            },
            render::Token::ModelEmissive(p) => {
                if me.is_none() {
                    let c = range_text(p, 0, p.len());
                    assert(c@ =~= p@);
                    me = Some((sp, c));
                }
            },
            render::Token::Material(p) => {
                if mat.is_none() {
                    let c = range_text(p, 0, p.len());
                    assert(c@ =~= p@);
                    mat = Some((sp, c));
                }
            },
            render::Token::MaterialEmissive(p) => {
                if mat_e.is_none() {
                    let c = range_text(p, 0, p.len());
                    assert(c@ =~= p@);
                    mat_e = Some((sp, c));
                }
            },
        }
        i += 1;
    }
    proof {
        assert(items.skip(n as int) =~= Seq::<(Span, IniTokenState<render::Token>)>::empty());
    }
    (model, lod, lod2, me, mat, mat_e)
}

/// The `buildings_types` file stem of a stock building key with the given
/// extension.
pub open spec fn stock_file_spec(stock: Seq<char>, key: Seq<char>, ext: Seq<char>) -> Seq<char> {
    join_spec(join_spec(stock, "buildings_types"@), key + ext)
}

fn stock_file(settings: &Settings, key: &Vec<char>, ext: &str) -> (r: Vec<char>)
    ensures
        r@ == stock_file_spec(settings.path_stock@, key@, ext@),
{
    let dir = path_join(&settings.path_stock, &chars_of("buildings_types"));
    let mut stem = range_text(key, 0, key.len());
    let mut e = chars_of(ext);
    stem.append(&mut e);
    proof {
        assert(stem@ =~= key@ + ext@);
    }
    path_join(&dir, &stem)
}

/// Build a batch-installer definition from a parsed render manifest: asset paths
/// resolve against the configuration's root, the stock variant derives its
/// own `building_ini`/`bbox`/`fire` names from the key, the mod variant
/// uses the conventional file names beside the manifest.
#[verifier::rlimit(100)]
pub fn parse_ini_to_def(
    render_config: RenderConfig,
    render_ini: &IniFile<render::Token>,
    fire_exists: bool,
    settings: &Settings,
) -> (r: Result<BuildingDef, BuildingError>)
    ensures
        ({
            let items = render_ini.toks@;
            let root = (match render_config {
                RenderConfig::Stock { .. } => settings.path_stock@,
                RenderConfig::Mod(ref p) => parent_spec(p@),
            });
            match r {
                Result::Ok(def) => {
                    &&& def.render_config == render_config
                    &&& (match render_config {
                        RenderConfig::Stock { ref key, .. } => def.building_ini@
                            == stock_file_spec(settings.path_stock@, key@, ".ini"@)
                            && def.bbox@ == stock_file_spec(
                            settings.path_stock@,
                            key@,
                            ".bbox"@,
                        ),
                        RenderConfig::Mod(_) => def.building_ini@ == join_spec(
                            root,
                            "building.ini"@,
                        ) && def.bbox@ == join_spec(root, "building.bbox"@),
                    })
                    &&& (fire_exists ==> def.fire is Some)
                    &&& (!fire_exists ==> def.fire is None)
                    &&& def.imagegui is None
                    &&& first_model_tok(items) is Some
                    &&& def.model.ini_token.start == first_model_tok(items)->Some_0.0.start
                    &&& def.model.ini_token.value@ == join_spec(
                        root,
                        first_model_tok(items)->Some_0.1,
                    )
                    &&& def.model.patch is None
                    &&& (match (def.model_lod1, first_model_lod_tok(items)) {
                        (Option::Some(d), Option::Some((sp, p))) => d.ini_token.value@
                            == join_spec(root, p) && d.patch is None,
                        (Option::None, Option::None) => true,
                        _ => false,
                    })
                    &&& (match (def.model_lod2, first_model_lod2_tok(items)) {
                        (Option::Some(d), Option::Some((sp, p))) => d.ini_token.value@
                            == join_spec(root, p) && d.patch is None,
                        (Option::None, Option::None) => true,
                        _ => false,
                    })
                    &&& (match (def.model_emissive, first_model_e_tok(items)) {
                        (Option::Some(d), Option::Some((sp, p))) => d.ini_token.value@
                            == join_spec(root, p) && d.patch is None,
                        (Option::None, Option::None) => true,
                        _ => false,
                    })
                    &&& first_material_tok(items) is Some
                    &&& def.material.render_token.value@ == join_spec(
                        root,
                        first_material_tok(items)->Some_0.1,
                    )
                    &&& def.material.textures@.len() == 0
                    &&& (match (def.material_emissive, first_material_e_tok(items)) {
                        (Option::Some(d), Option::Some((sp, p))) => d.render_token.value@
                            == join_spec(root, p) && d.textures@.len() == 0,
                        (Option::None, Option::None) => true,
                        _ => false,
                    })
                    &&& def.skins@.len() == 0
                },
                Result::Err(BuildingError::ModelMissing) => first_model_tok(items) is None,
                Result::Err(BuildingError::MaterialMissing) => first_model_tok(items) is Some
                    && first_material_tok(items) is None,
                Result::Err(_) => false,
            }
        }),
{
    let root = render_config.root_path(settings);
    let (building_ini, bbox, fire) = match &render_config {
        RenderConfig::Stock { key, .. } => {
            let bi = stock_file(settings, key, ".ini");
            let bb = stock_file(settings, key, ".bbox");
            let fr = stock_file(settings, key, ".fire");
            (bi, bb, fr)
        },
        RenderConfig::Mod(_) => {
            let bi = path_join(&root, &chars_of("building.ini"));
            let bb = path_join(&root, &chars_of("building.bbox"));
            let fr = path_join(&root, &chars_of("building.fire"));
            (bi, bb, fr)
        },
    };
    let fire = if fire_exists {
        Some(fire)
    } else {
        None
    };
    let (model, lod, lod2, me, mat, mat_e) = grep_render_tokens(render_ini);
    let (msp, mpath) = match model {
        Option::Some(v) => v,
        Option::None => {
            return Err(BuildingError::ModelMissing);
        },
    };
    let (csp, cpath) = match mat {
        Option::Some(v) => v,
        Option::None => {
            return Err(BuildingError::MaterialMissing);
        },
    };
    let def = BuildingDef {
        render_config,
        building_ini,
        bbox,
        fire,
        imagegui: None,
        model: ModelDef::new(
            IniToken { start: msp.start, end: msp.end, value: path_join(&root, &mpath) },
        ),
        model_lod1: match lod {
            Option::Some((sp, p)) => Some(
                ModelDef::new(
                    IniToken { start: sp.start, end: sp.end, value: path_join(&root, &p) },
                ),
            ),
            Option::None => None,
        },
        model_lod2: match lod2 {
            Option::Some((sp, p)) => Some(
                ModelDef::new(
                    IniToken { start: sp.start, end: sp.end, value: path_join(&root, &p) },
                ),
            ),
            Option::None => None,
        },
        model_emissive: match me {
            Option::Some((sp, p)) => Some(
                ModelDef::new(
                    IniToken { start: sp.start, end: sp.end, value: path_join(&root, &p) },
                ),
            ),
            Option::None => None,
        },
        material: MaterialDef::new(
            IniToken { start: csp.start, end: csp.end, value: path_join(&root, &cpath) },
            Vec::new(),
        ),
        material_emissive: match mat_e {
            Option::Some((sp, p)) => Some(
                MaterialDef::new(
                    IniToken { start: sp.start, end: sp.end, value: path_join(&root, &p) },
                    Vec::new(),
                ),
            ),
            Option::None => None,
        },
        skins: Vec::new(),
    };
    Ok(def)
}

} // verus!

verus! {

/// The stock-building cache: one entry per lookup key, each parsed at
/// most once.
pub struct StockBuildings {
    pub entries: Vec<(Vec<char>, StockBuilding)>,
}

pub open spec fn stock_key_at(map: StockBuildings, i: int) -> Seq<char> {
    map.entries@[i].0@
}

/// Look a stock building up by key, parsing its manifest text on first
/// use; an already-parsed entry is returned as is, an absent key gives
/// `Ok(None)`, and an entry whose text does not make a definition gives
/// the parse or missing-field error.
pub fn get_stock_building(key: &Vec<char>, map: &mut StockBuildings, settings: &Settings) -> (r:
    Result<Option<usize>, BuildingError>)
    ensures
        match r {
            Result::Ok(Option::Some(i)) => {
                &&& i < final(map).entries@.len()
                &&& final(map).entries@.len() == old(map).entries@.len()
                &&& stock_key_at(*final(map), i as int) == key@
                &&& forall|j: int|
                    0 <= j < old(map).entries@.len() && j != i ==> final(map).entries@[j] == old(
                        map,
                    ).entries@[j]
                &&& (old(map).entries@[i as int].1 is Parsed ==> final(map).entries@[i as int]
                    == old(map).entries@[i as int])
                &&& (match (old(map).entries@[i as int].1, final(map).entries@[i as int].1) {
                    (StockBuilding::Parsed(_), StockBuilding::Parsed(_)) => true,
                    (StockBuilding::Unparsed(text), StockBuilding::Parsed(d)) => {
                        // the cached definition is tied to the entry's own
                        // key and manifest text, with the key-derived paths
                        &&& d.render_config matches RenderConfig::Stock { key: k2, data }
                            && k2@ == key@ && data@ == text@
                        &&& d.building_ini@ == stock_file_spec(
                            settings.path_stock@,
                            key@,
                            ".ini"@,
                        )
                        &&& d.bbox@ == stock_file_spec(settings.path_stock@, key@, ".bbox"@)
                        &&& d.fire is None
                        &&& d.imagegui is None
                        &&& d.material.textures@.len() == 0
                        &&& d.skins@.len() == 0
                    },
                    _ => false,
                })
            },
            Result::Ok(Option::None) => *final(map) == *old(map) && (forall|j: int|
                0 <= j < old(map).entries@.len() ==> stock_key_at(*old(map), j) != key@),
            Result::Err(e) => *final(map) == *old(map) && (exists|i: int|
                0 <= i < old(map).entries@.len() && stock_key_at(*old(map), i) == key@ && (
                #[trigger] old(map).entries@[i]).1 is Unparsed && (forall|j: int|
                    0 <= j < i ==> stock_key_at(*old(map), j) != key@)) && (match e {
                BuildingError::Parse(k, _) => k@ == key@,
                BuildingError::ModelMissing => true,
                BuildingError::MaterialMissing => true,
                _ => false,
            }),
        },
        // the first entry under the key, once parsed, is always served
        (exists|i: int|
            0 <= i < old(map).entries@.len() && stock_key_at(*old(map), i) == key@ && (
            #[trigger] old(map).entries@[i]).1 is Parsed && (forall|j: int|
                0 <= j < i ==> stock_key_at(*old(map), j) != key@)) ==> r matches Result::Ok(
            Option::Some(_),
        ),
{
    let n = map.entries.len();
    let mut i: usize = 0;
    while i < n
        invariant
            i <= n == map.entries@.len(),
            map == old(map),
            forall|j: int| 0 <= j < i ==> stock_key_at(*map, j) != key@,
        decreases n - i,
    {
        if text_eq(&map.entries[i].0, key) {
            match &map.entries[i].1 {
                StockBuilding::Parsed(_) => {
                    return Ok(Some(i));
                },
                StockBuilding::Unparsed(text) => {
                    let ghost text0 = text@;
                    let data = range_text(text, 0, text.len());
                    let key2 = range_text(key, 0, key.len());
                    let src = range_text(text, 0, text.len());
                    proof {
                        assert(data@ =~= text0);
                        assert(key2@ =~= key@);
                        assert(stock_key_at(*map, i as int) == key@);
                        if exists|w: int|
                            0 <= w < map.entries@.len() && stock_key_at(*map, w) == key@ && (
                            #[trigger] map.entries@[w]).1 is Parsed && (forall|j: int|
                                0 <= j < w ==> stock_key_at(*map, j) != key@) {
                            let w = choose|w: int|
                                0 <= w < map.entries@.len() && stock_key_at(*map, w) == key@ && (
                                #[trigger] map.entries@[w]).1 is Parsed && (forall|j: int|
                                    0 <= j < w ==> stock_key_at(*map, j) != key@);
                            if w < i {
                                assert(stock_key_at(*map, w) != key@);
                            } else if w > i {
                                assert(stock_key_at(*map, i as int) != key@);
                            }
                            assert(false);
                        }
                    }
                    let rini = match render::parse_renderconfig_ini(src) {
                        Result::Ok(f) => f,
                        Result::Err(errs) => {
                            let msg = crate::building_def::concat_parse_errors(&errs);
                            return Err(BuildingError::Parse(key2, msg));
                        },
                    };
                    let cfg = RenderConfig::Stock { key: key2, data };
                    let def = match parse_ini_to_def(cfg, &rini, false, settings) {
                        Result::Ok(d) => d,
                        Result::Err(e) => {
                            return Err(e);
                        },
                    };
                    let ghost before = map.entries@;
                    let (k0, _) = map.entries.remove(i);
                    map.entries.insert(i, (k0, StockBuilding::Parsed(def)));
                    proof {
                        assert(stock_key_at(*map, i as int) == key@);
                        assert forall|j: int|
                            0 <= j < before.len() && j != i implies map.entries@[j] == before[j]
                        by {
                            if j < i {
                                assert(map.entries@[j] == before[j]);
                            }
                        }
                    }
                    return Ok(Some(i));
                },
            }
        }
        i += 1;
    }
    Ok(None)
}

/// Local files that replace parts of a definition.
pub struct SourceOverrides {
    pub building_ini: Option<Vec<char>>,
    pub imagegui: Option<Vec<char>>,
    pub skins: Option<Vec<Skin>>,
    pub material: Option<(Vec<char>, Vec<IniTokenTexture>)>,
    pub material_e: Option<(Vec<char>, Vec<IniTokenTexture>)>,
}

/// An emissive-material override needs an emissive material to replace.
#[derive(Debug)]
pub enum SourceToDefError {
    EmissiveOverrideWithoutBase,
}

/// Apply a source directory's local overrides to a definition: each
/// present override replaces the matching field, everything else is kept.
pub fn source_to_def(def: BuildingDef, overrides: SourceOverrides) -> (r: Result<
    BuildingDef,
    SourceToDefError,
>)
    ensures
        match r {
            Result::Ok(d) => {
                &&& d.render_config == def.render_config
                &&& (match overrides.building_ini {
                    Option::Some(p) => d.building_ini == p,
                    Option::None => d.building_ini == def.building_ini,
                })
                &&& d.bbox == def.bbox
                &&& d.fire == def.fire
                &&& (match overrides.imagegui {
                    Option::Some(p) => d.imagegui == Option::Some(p),
                    Option::None => d.imagegui == def.imagegui,
                })
                &&& d.model == def.model
                &&& d.model_lod1 == def.model_lod1
                &&& d.model_lod2 == def.model_lod2
                &&& d.model_emissive == def.model_emissive
                &&& (match overrides.material {
                    Option::Some((p, tx)) => d.material.render_token.value == p
                        && d.material.textures == tx && d.material.render_token.start
                        == def.material.render_token.start && d.material.render_token.end
                        == def.material.render_token.end,
                    Option::None => d.material == def.material,
                })
                &&& (match overrides.material_e {
                    Option::Some((p, tx)) => def.material_emissive is Some
                        && d.material_emissive is Some && {
                        let me = d.material_emissive->Some_0;
                        me.render_token.value == p && me.textures == tx
                    },
                    Option::None => d.material_emissive == def.material_emissive,
                })
                &&& (match overrides.skins {
                    Option::Some(sk) => d.skins == sk,
                    Option::None => d.skins == def.skins,
                })
            },
            Result::Err(SourceToDefError::EmissiveOverrideWithoutBase) => overrides.material_e
                is Some && def.material_emissive is None,
        },
{
    let mut def = def;
    match overrides.building_ini {
        Option::Some(p) => {
            def.building_ini = p;
        },
        Option::None => {},
    }
    match overrides.imagegui {
        Option::Some(p) => {
            def.imagegui = Some(p);
        },
        Option::None => {},
    }
    match overrides.material {
        Option::Some((p, tx)) => {
            let start = def.material.render_token.start;
            let end = def.material.render_token.end;
            def.material = MaterialDef { render_token: IniToken { start, end, value: p }, textures: tx };
        },
        Option::None => {},
    }
    match overrides.material_e {
        Option::Some((p, tx)) => {
            match def.material_emissive {
                Option::Some(me) => {
                    let start = me.render_token.start;
                    let end = me.render_token.end;
                    def.material_emissive = Some(
                        MaterialDef { render_token: IniToken { start, end, value: p }, textures: tx },
                    );
                },
                Option::None => {
                    return Err(SourceToDefError::EmissiveOverrideWithoutBase);
                },
            }
        },
        Option::None => {},
    }
    match overrides.skins {
        Option::Some(sk) => {
            def.skins = sk;
        },
        Option::None => {},
    }
    Ok(def)
}

} // verus!

verus! {

/// The prefix named by two characters, if any.
pub open spec fn prefix_of(s: Seq<char>) -> Option<PathPrefix> {
    if s == "~/"@ {
        Option::Some(PathPrefix::Stock)
    } else if s == "$/"@ {
        Option::Some(PathPrefix::Workshop)
    } else if s == "./"@ {
        Option::Some(PathPrefix::CurrentDir)
    } else {
        Option::None
    }
}

/// One parsed skin line: a prefixed material path, optionally followed by
/// `+` and a prefixed emissive material path.
pub open spec fn skin_line_spec(l: Seq<char>) -> Option<
    (PathPrefix, Seq<char>, Option<(PathPrefix, Seq<char>)>),
> {
    let w1e = crate::scan::word_end(l, 0);
    if l.len() >= 3 && w1e > 2 && prefix_of(l.subrange(0, 2)) is Some {
        let pfx1 = prefix_of(l.subrange(0, 2))->Some_0;
        let p1 = l.subrange(2, w1e);
        let q = crate::scan::skip_ws(l, w1e);
        if q < l.len() && l[q] == '+' && crate::scan::word_end(l, q) == q + 1 {
            let r = crate::scan::skip_ws(l, q + 1);
            let w2e = crate::scan::word_end(l, r);
            if r + 2 < w2e && r + 2 <= l.len() && prefix_of(l.subrange(r, r + 2)) is Some {
                let pfx2 = prefix_of(l.subrange(r, r + 2))->Some_0;
                let p2 = l.subrange(r + 2, w2e);
                Option::Some((pfx1, p1, Option::Some((pfx2, p2))))
            } else {
                Option::None
            }
        } else {
            Option::Some((pfx1, p1, Option::None))
        }
    } else {
        Option::None
    }
}

fn parse_prefix_at(l: &Vec<char>, at: usize) -> (r: Option<PathPrefix>)
    requires
        at + 2 <= l@.len() <= usize::MAX,
    ensures
        r == prefix_of(l@.subrange(at as int, at as int + 2)),
{
    let two = range_text(l, at, at + 2);
    assert(two@ =~= l@.subrange(at as int, at as int + 2));
    match PathPrefix::parse(&two) {
        Result::Ok(p) => Some(p),
        Result::Err(_) => None,
    }
}

/// Parse one line of a skin list.
fn parse_skin_line(l: &Vec<char>) -> (r: Option<
    (PathPrefix, Vec<char>, Option<(PathPrefix, Vec<char>)>),
>)
    ensures
        match r {
            Option::Some((pfx1, p1, rest)) => {
                let sp = skin_line_spec(l@);
                &&& sp is Some
                &&& sp->Some_0.0 == pfx1
                &&& sp->Some_0.1 == p1@
                &&& (match (rest, sp->Some_0.2) {
                    (Option::Some((pfx2, p2)), Option::Some((sp2, sq2))) => pfx2 == sp2 && p2@
                        == sq2,
                    (Option::None, Option::None) => true,
                    _ => false,
                })
            },
            Option::None => skin_line_spec(l@) is None,
        },
{
    let w1e = crate::scan::word_end_x(l, 0);
    if !(l.len() >= 3 && w1e > 2) {
        return None;
    }
    let pfx1 = match parse_prefix_at(l, 0) {
        Option::Some(p) => p,
        Option::None => {
            return None;
        },
    };
    let p1 = range_text(l, 2, w1e);
    let q = crate::scan::skip_ws_x(l, w1e);
    if q < l.len() && l[q] == '+' && crate::scan::word_end_x(l, q) == q + 1 {
        let r = crate::scan::skip_ws_x(l, q + 1);
        let w2e = crate::scan::word_end_x(l, r);
        if w2e - r > 2 {
            let pfx2 = match parse_prefix_at(l, r) {
                Option::Some(p) => p,
                Option::None => {
                    return None;
                },
            };
            let p2 = range_text(l, r + 2, w2e);
            Some((pfx1, p1, Some((pfx2, p2))))
        } else {
            None
        }
    } else {
        Some((pfx1, p1, None))
    }
}

/// The skins denoted by the lines of a skin list, with resolved material
/// paths and textures still to be filled in.
pub open spec fn skins_spec(
    lines: Seq<Seq<char>>,
    dir: Seq<char>,
    stock: Seq<char>,
    workshop: Seq<char>,
) -> Seq<(Seq<char>, Option<Seq<char>>)>
    decreases lines.len(),
{
    if lines.len() == 0 {
        Seq::empty()
    } else {
        (match skin_line_spec(lines[0]) {
            Option::Some((pfx1, p1, rest)) => seq![
                (
                    resolve_spec(pfx1, p1, dir, stock, workshop),
                    match rest {
                        Option::Some((pfx2, p2)) => Option::Some(
                            resolve_spec(pfx2, p2, dir, stock, workshop),
                        ),
                        Option::None => Option::None,
                    },
                ),
            ],
            Option::None => Seq::empty(),
        }) + skins_spec(lines.skip(1), dir, stock, workshop)
    }
}

pub open spec fn resolve_spec(
    pfx: PathPrefix,
    p: Seq<char>,
    dir: Seq<char>,
    stock: Seq<char>,
    workshop: Seq<char>,
) -> Seq<char> {
    match pfx {
        PathPrefix::Stock => join_spec(stock, p),
        PathPrefix::Workshop => join_spec(workshop, p),
        PathPrefix::CurrentDir => join_spec(dir, p),
    }
}

/// Parse a skin list: one skin per well-formed line, every other line
/// ignored; texture lists start out empty.
pub fn get_skins(text: &Vec<char>, skinfile_dir: &Vec<char>, settings: &Settings) -> (r: Vec<
    Skin,
>)
    ensures
        ({
            let sk = skins_spec(
                crate::nmf::split_lines(text@),
                skinfile_dir@,
                settings.path_stock@,
                settings.path_workshop@,
            );
            &&& r@.len() == sk.len()
            &&& forall|j: int|
                0 <= j < sk.len() ==> (#[trigger] r@[j]).material.path@ == sk[j].0
                    && r@[j].material.textures@.len() == 0 && (match (
                    r@[j].material_emissive,
                    sk[j].1,
                ) {
                    (Option::Some(me), Option::Some(sp)) => me.path@ == sp && me.textures@.len()
                        == 0,
                    (Option::None, Option::None) => true,
                    _ => false,
                })
        }),
{
    let lines = crate::nmf::split_lines_x(text);
    let ghost ls = crate::nmf::split_lines(text@);
    let ghost full = skins_spec(ls, skinfile_dir@, settings.path_stock@, settings.path_workshop@);
    let mut r: Vec<Skin> = Vec::new();
    let n = lines.len();
    let mut i: usize = 0;
    proof {
        assert(ls.skip(0) =~= ls);
    }
    while i < n
        invariant
            i <= n == ls.len(),
            lines@.len() == n,
            forall|k: int| 0 <= k < n ==> (#[trigger] lines@[k])@ == ls[k],
            full == skins_spec(
                ls,
                skinfile_dir@,
                settings.path_stock@,
                settings.path_workshop@,
            ),
            r@.len() <= full.len(),
            full == full.take(r@.len() as int) + skins_spec(
                ls.skip(i as int),
                skinfile_dir@,
                settings.path_stock@,
                settings.path_workshop@,
            ),
            forall|j: int|
                0 <= j < r@.len() ==> (#[trigger] r@[j]).material.path@ == full[j].0
                    && r@[j].material.textures@.len() == 0 && (match (
                    r@[j].material_emissive,
                    full[j].1,
                ) {
                    (Option::Some(me), Option::Some(sp)) => me.path@ == sp && me.textures@.len()
                        == 0,
                    (Option::None, Option::None) => true,
                    _ => false,
                }),
        decreases n - i,
    {
        proof {
            assert(ls.skip(i as int)[0] == ls[i as int]);
            assert(ls.skip(i as int).skip(1) =~= ls.skip(i as int + 1));
        }
        match parse_skin_line(&lines[i]) {
            Option::Some((pfx1, p1, rest)) => {
                let m_path = resolve_prefixed_path(pfx1, &p1, skinfile_dir, settings);
                let me = match rest {
                    Option::Some((pfx2, p2)) => Some(
                        SkinMaterial {
                            path: resolve_prefixed_path(pfx2, &p2, skinfile_dir, settings),
                            textures: Vec::new(),
                        },
                    ),
                    Option::None => None,
                };
                let sk = Skin {
                    material: SkinMaterial { path: m_path, textures: Vec::new() },
                    material_emissive: me,
                };
                let ghost oldr = r@;
                proof {
                    let hd = skins_spec(
                        ls.skip(i as int),
                        skinfile_dir@,
                        settings.path_stock@,
                        settings.path_workshop@,
                    );
                    let tl = skins_spec(
                        ls.skip(i as int + 1),
                        skinfile_dir@,
                        settings.path_stock@,
                        settings.path_workshop@,
                    );
                    assert(hd == seq![hd[0]] + tl);
                    assert(full[oldr.len() as int] == hd[0]) by {
                        assert(full.take(oldr.len() as int + 1) =~= full.take(
                            oldr.len() as int,
                        ).push(full[oldr.len() as int]));
                        assert(full == full.take(oldr.len() as int) + (seq![hd[0]] + tl));
                    }
                    assert(full.take(oldr.len() as int + 1) + tl =~= full);
                }
                r.push(sk);
            },
            Option::None => {
                proof {
                    assert(skins_spec(
                        ls.skip(i as int),
                        skinfile_dir@,
                        settings.path_stock@,
                        settings.path_workshop@,
                    ) == skins_spec(
                        ls.skip(i as int + 1),
                        skinfile_dir@,
                        settings.path_stock@,
                        settings.path_workshop@,
                    ));
                }
            },
        }
        i += 1;
    }
    proof {
        assert(skins_spec(
            ls.skip(n as int),
            skinfile_dir@,
            settings.path_stock@,
            settings.path_workshop@,
        ) =~= Seq::<(Seq<char>, Option<Seq<char>>)>::empty());
        assert(full.take(r@.len() as int) =~= full);
    }
    r
}

} // verus!

verus! {

/// Fill a skin material's texture bindings from its parsed material file,
/// resolving `_MTL` slots against the material's own directory.
pub fn fill_skin_textures(
    sm: &mut SkinMaterial,
    mtl: &IniFile<material::Token>,
    settings: &Settings,
)
    ensures
        final(sm).path == old(sm).path,
        ({
            let ts = tex_token_spec(mtl.toks@, settings.path_stock@, parent_spec(old(sm).path@));
            &&& final(sm).textures@.len() == ts.len()
            &&& forall|j: int|
                0 <= j < ts.len() ==> (#[trigger] final(sm).textures@[j]).start == ts[j].0.start
                    && final(sm).textures@[j].end == ts[j].0.end
                    && final(sm).textures@[j].value.num == ts[j].1
                    && final(sm).textures@[j].value.path@ == ts[j].2
        }),
{
    let dir = path_parent(&sm.path);
    let textures = get_texture_tokens(mtl, &dir, settings);
    sm.textures = textures;
}

} // verus!
