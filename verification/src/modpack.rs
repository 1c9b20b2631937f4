//! Batch processing of building source directories: each candidate either
//! becomes a validated building or counts as one failure, and the batch
//! always runs to the end.

use vstd::prelude::*;
use crate::scan::{word_end, line_end, word_end_x, line_end_x};
use crate::render;
use crate::text::{is_digit, all_digits, range_text};
use crate::nmf::trim_cr;
use crate::paths::{join_spec, path_join};
use crate::building_def::{
    concat_parse_errors, BuildingDef, BuildingError, LoadedIni, SourceData, first_model,
    first_material, first_model_lod, first_model_lod2, first_model_e, first_material_e,
    render_tokens, validation_clean, Violation,
};

verus! {

/// One building source that passed validation.
pub struct BuildingSource {
    pub def: BuildingDef,
    pub skins: Option<()>,
    pub actions: Option<()>,
}

/// Why one candidate was dropped from the batch.
pub enum SourceError {
    NoRenderconfig,
    MultiRenderconfig,
    Def(BuildingError),
    Validation(Vec<Violation>),
    RefRead(Vec<char>),
    RefParse,
}

/// Where a `renderconfig.ref` pointer leads.
pub enum RenderRef {
    Workshop(Vec<char>),
    Stock(Vec<char>),
    Relative(Vec<char>),
}

/// A workshop pointer: `#`, a ten-digit item number, `/`, and a path.
pub open spec fn workshop_ref_shape(s: Seq<char>) -> bool {
    &&& s.len() >= 1
    &&& s[0] == '#'
    &&& word_end(s, 0) > 12
    &&& all_digits(s.subrange(1, 11))
    &&& s[11] == '/'
}

/// A stock pointer: `~` and a key.
pub open spec fn stock_ref_shape(s: Seq<char>) -> bool {
    &&& s.len() >= 1
    &&& s[0] == '~'
    &&& word_end(s, 0) >= 2
    &&& !workshop_ref_shape(s)
}

/// Parse the pointer text of a reference file: a workshop item, a stock
/// key, or a path relative to the file itself (the whole first line).
pub fn parse_render_ref(s: &Vec<char>) -> (r: Result<RenderRef, ()>)
    ensures
        match r {
            Result::Ok(RenderRef::Workshop(p)) => workshop_ref_shape(s@) && p@ == s@.subrange(
                1,
                word_end(s@, 0),
            ),
            Result::Ok(RenderRef::Stock(p)) => stock_ref_shape(s@) && p@ == s@.subrange(
                1,
                word_end(s@, 0),
            ),
            Result::Ok(RenderRef::Relative(p)) => !workshop_ref_shape(s@) && !stock_ref_shape(
                s@,
            ) && trim_cr(s@.subrange(0, line_end(s@, 0))).len() >= 1 && p@ == trim_cr(
                s@.subrange(0, line_end(s@, 0)),
            ),
            Result::Err(_) => !workshop_ref_shape(s@) && !stock_ref_shape(s@) && trim_cr(
                s@.subrange(0, line_end(s@, 0)),
            ).len() == 0,
        },
{
    let we = word_end_x(s, 0);
    let le = line_end_x(s, 0);
    if s.len() >= 1 && s[0] == '#' && we > 12 {
        let mut digits_ok = s[11] == '/';
        let mut i: usize = 1;
        while i < 11
            invariant
                1 <= i <= 11,
                s@.len() > 12,
                digits_ok == (s@[11] == '/' && forall|j: int|
                    1 <= j < i ==> is_digit(#[trigger] s@[j])),
            decreases 11 - i,
        {
            if !crate::text::digit(s[i]) {
                digits_ok = false;
            }
            i += 1;
        }
        if digits_ok {
            proof {
                assert forall|j: int| 0 <= j < 10 implies is_digit(
                    #[trigger] s@.subrange(1, 11)[j],
                ) by {
                    assert(s@.subrange(1, 11)[j] == s@[j + 1]);
                }
            }
            let p = range_text(s, 1, we);
            return Ok(RenderRef::Workshop(p));
        }
        proof {
            if workshop_ref_shape(s@) {
                assert(forall|j: int|
                    0 <= j < 10 ==> is_digit(#[trigger] s@.subrange(1, 11)[j]));
                assert forall|j: int| 1 <= j < 11 implies is_digit(#[trigger] s@[j]) by {
                    assert(s@.subrange(1, 11)[j - 1] == s@[j]);
                }
                assert(false);
            }
        }
        let end = if le > 0 && s[le - 1] == '\r' {
            le - 1
        } else {
            le
        };
        proof {
            assert(trim_cr(s@.subrange(0, le as int)) =~= s@.subrange(0, end as int));
        }
        if end >= 1 {
            let p = range_text(s, 0, end);
            return Ok(RenderRef::Relative(p));
        }
        return Err(());
    }
    proof {
        if workshop_ref_shape(s@) {
            assert(s@[0] == '#');
            assert(word_end(s@, 0) > 12);
            assert(s@.len() >= word_end(s@, 0)) by {
                crate::scan::lemma_word_end_bounds(s@, 0);
            }
            assert(false);
        }
    }
    if s.len() >= 1 && s[0] == '~' && we >= 2 {
        let p = range_text(s, 1, we);
        return Ok(RenderRef::Stock(p));
    }
    let end = if le > 0 && s[le - 1] == '\r' {
        le - 1
    } else {
        le
    };
    proof {
        assert(trim_cr(s@.subrange(0, le as int)) =~= s@.subrange(0, end as int));
    }
    if end >= 1 {
        let p = range_text(s, 0, end);
        return Ok(RenderRef::Relative(p));
    }
    Err(())
}

/// Resolve a source path: `#` under the workshop root, `~` under the
/// stock root, anything else under the local root.
pub fn resolve_source_path(
    root: &Vec<char>,
    tail: &Vec<char>,
    settings: &crate::data::Settings,
) -> (r: Vec<char>)
    requires
        tail@.len() >= 1,
    ensures
        ({
            if tail@[0] == '#' {
                r@ == join_spec(settings.path_workshop@, tail@.skip(1))
            } else if tail@[0] == '~' {
                r@ == join_spec(settings.path_stock@, tail@.skip(1))
            } else {
                r@ == join_spec(root@, tail@)
            }
        }),
{
    let c = tail[0];
    if c == '#' {
        let rest = range_text(tail, 1, tail.len());
        assert(rest@ =~= tail@.skip(1));
        path_join(&settings.path_workshop, &rest)
    } else if c == '~' {
        let rest = range_text(tail, 1, tail.len());
        assert(rest@ =~= tail@.skip(1));
        path_join(&settings.path_stock, &rest)
    } else {
        path_join(root, tail)
    }
}

/// Everything gathered for one candidate building directory.
pub struct SourceInput {
    pub building_ini: Vec<char>,
    pub renderconfig: Vec<char>,
    pub has_source: bool,
    pub has_ref: bool,
    pub render: LoadedIni<render::Token>,
    pub files: SourceData,
}

/// `validation_clean`, phrased over the manifest's tokens instead of the
/// assembled definition.
pub open spec fn files_clean(toks: Seq<render::Token>, files: SourceData) -> bool {
    &&& files.building_ini_exists
    &&& files.renderconfig_exists
    &&& files.model_exists
    &&& (first_model_lod(toks) is Some ==> files.model_lod_exists)
    &&& (first_model_lod2(toks) is Some ==> files.model_lod2_exists)
    &&& (first_model_e(toks) is Some ==> files.model_e_exists)
    &&& files.material_exists
    &&& (first_material_e(toks) is Some ==> files.material_e_exists)
    &&& (forall|i: int|
        0 <= i < files.textures_exist@.len() ==> #[trigger] files.textures_exist@[i])
    &&& files.model is Loaded
    &&& {
        let m = files.model->Loaded_0;
        &&& (match files.building_ini {
            crate::building_def::LoadedIni::Parsed(f) => crate::building_def::node_violations(
                crate::building_def::building_tokens(f),
                m,
            ).len() == 0,
            _ => false,
        })
        &&& (match files.material {
            crate::building_def::LoadedIni::Parsed(f) => crate::building_def::mtl_violations_from(
                m,
                crate::building_def::material_tokens(f),
                0,
            ).len() == 0,
            _ => false,
        })
        &&& (first_material_e(toks) is Some ==> match files.material_e {
            crate::building_def::LoadedIni::Parsed(f) => crate::building_def::mtl_violations_from(
                m,
                crate::building_def::material_tokens(f),
                0,
            ).len() == 0,
            _ => false,
        })
    }
}

/// A candidate is good: exactly one configuration source, a readable and
/// complete manifest, and a clean validation.
pub open spec fn input_ok(inp: SourceInput) -> bool {
    &&& (inp.has_source || inp.has_ref)
    &&& !(inp.has_source && inp.has_ref)
    &&& inp.render is Parsed
    &&& first_model(render_tokens(inp.render->Parsed_0)) is Some
    &&& first_material(render_tokens(inp.render->Parsed_0)) is Some
    &&& files_clean(render_tokens(inp.render->Parsed_0), inp.files)
}

/// How many candidates fail.
pub open spec fn bad_count(inputs: Seq<SourceInput>) -> int
    decreases inputs.len(),
{
    if inputs.len() == 0 {
        0
    } else {
        (if input_ok(inputs[0]) {
            0int
        } else {
            1int
        }) + bad_count(inputs.skip(1))
    }
}

/// Process one candidate into a validated building, or say why not.
pub fn process_source(inp: SourceInput) -> (r: Result<BuildingSource, SourceError>)
    ensures
        r is Ok <==> input_ok(inp),
        r is Ok ==> r->Ok_0.def.building_ini@ == inp.building_ini@ && r->Ok_0.def.renderconfig@
            == inp.renderconfig@,
        (match r {
            Result::Ok(_) => true,
            Result::Err(SourceError::NoRenderconfig) => !inp.has_source && !inp.has_ref,
            Result::Err(SourceError::MultiRenderconfig) => inp.has_source && inp.has_ref,
            Result::Err(SourceError::RefRead(p)) => (inp.has_source || inp.has_ref) && !(
            inp.has_source && inp.has_ref) && inp.has_ref && inp.render is Unreadable && p@
                == inp.renderconfig@,
            Result::Err(SourceError::Def(BuildingError::FileIO(p))) => (inp.has_source
                || inp.has_ref) && !(inp.has_source && inp.has_ref) && inp.has_source
                && inp.render is Unreadable && p@ == inp.renderconfig@,
            Result::Err(SourceError::Def(BuildingError::Parse(p, m))) => (inp.has_source
                || inp.has_ref) && !(inp.has_source && inp.has_ref) && (
            inp.render matches LoadedIni::ParseFailed(errs) && m@
                == crate::building_def::concat_parse_errors_spec(errs@)) && p@
                == inp.renderconfig@,
            Result::Err(SourceError::Def(BuildingError::ModelMissing)) => inp.render is Parsed
                && first_model(render_tokens(inp.render->Parsed_0)) is None,
            Result::Err(SourceError::Def(BuildingError::MaterialMissing)) => inp.render
                is Parsed && first_model(render_tokens(inp.render->Parsed_0)) is Some
                && first_material(render_tokens(inp.render->Parsed_0)) is None,
            Result::Err(SourceError::Validation(v)) => inp.render is Parsed && first_model(
                render_tokens(inp.render->Parsed_0),
            ) is Some && first_material(render_tokens(inp.render->Parsed_0)) is Some
                && !files_clean(render_tokens(inp.render->Parsed_0), inp.files) && v@.len()
                >= 1,
            Result::Err(SourceError::RefParse) => false,
        }),
{
    if !inp.has_source && !inp.has_ref {
        return Err(SourceError::NoRenderconfig);
    }
    if inp.has_source && inp.has_ref {
        return Err(SourceError::MultiRenderconfig);
    }
    let rini = match inp.render {
        LoadedIni::Parsed(f) => f,
        LoadedIni::ParseFailed(errs) => {
            let msg = concat_parse_errors(&errs);
            return Err(SourceError::Def(BuildingError::Parse(inp.renderconfig, msg)));
        },
        LoadedIni::Unreadable => {
            if inp.has_ref {
                return Err(SourceError::RefRead(inp.renderconfig));
            }
            return Err(SourceError::Def(BuildingError::FileIO(inp.renderconfig)));
        },
    };
    let def = match BuildingDef::from_config(&inp.building_ini, &inp.renderconfig, &rini) {
        Result::Ok(d) => d,
        Result::Err(e) => {
            return Err(SourceError::Def(e));
        },
    };
    let ghost toks = render_tokens(rini);
    let ghost files0 = inp.files;
    match def.parse_and_validate(inp.files) {
        Result::Ok(()) => {
            proof {
                assert(validation_clean(def, files0));
                assert(files_clean(toks, files0));
            }
            Ok(BuildingSource { def, skins: None, actions: None })
        },
        Result::Err(v) => {
            proof {
                if files_clean(toks, files0) {
                    assert(validation_clean(def, files0));
                }
            }
            Err(SourceError::Validation(v))
        },
    }
}

/// Process a whole batch: never stop at a failure, count every one, and
/// return the validated buildings only when the batch is error-free.
pub fn read_validate_sources(inputs: Vec<SourceInput>) -> (r: Result<Vec<BuildingSource>, usize>)
    ensures
        match r {
            Result::Ok(out) => bad_count(inputs@) == 0 && out@.len() == inputs@.len() && (
            forall|i: int|
                0 <= i < inputs@.len() ==> input_ok(#[trigger] inputs@[i])),
            Result::Err(n) => n as int == bad_count(inputs@) && n >= 1,
        },
{
    let ghost all = inputs@;
    let mut result: Vec<BuildingSource> = Vec::new();
    let mut errors: usize = 0;
    let n = inputs.len();
    let mut inputs = inputs;
    let mut i: usize = 0;
    proof {
        assert(all.skip(0) =~= all);
    }
    while i < n
        invariant
            i <= n == all.len(),
            inputs@.len() == n - i,
            forall|k: int| 0 <= k < n - i ==> #[trigger] inputs@[k] == all[k + i],
            errors <= i,
            bad_count(all) == errors + bad_count(all.skip(i as int)),
            errors == 0 ==> result@.len() == i,
            errors == 0 ==> forall|k: int| 0 <= k < i ==> input_ok(#[trigger] all[k]),
        decreases n - i,
    {
        let ghost old_inputs = inputs@;
        let inp = inputs.remove(0);
        proof {
            assert(inp == old_inputs[0]);
            assert(inp == all[i as int]);
            assert(forall|k: int|
                0 <= k < old_inputs.len() - 1 ==> #[trigger] inputs@[k] == old_inputs[k + 1]);
            assert(all.skip(i as int)[0] == all[i as int]);
            assert(all.skip(i as int).skip(1) =~= all.skip(i as int + 1));
        }
        match process_source(inp) {
            Result::Ok(bs) => {
                result.push(bs);
            },
            Result::Err(_) => {
                errors += 1;
            },
        }
        i += 1;
    }
    proof {
        assert(all.skip(n as int) =~= Seq::<SourceInput>::empty());
    }
    if errors == 0 {
        Ok(result)
    } else {
        Err(errors)
    }
}

} // verus!
