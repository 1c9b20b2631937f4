//! The render-manifest dialect: the directives of a `renderconfig` file
//! naming a building's model and material assets, with optional LOD and
//! emissive variants.

use vstd::prelude::*;
use crate::scan::{
    Span, Slot, Directive, DirectiveS, Arg, ArgS, GTok, ChunkS, scan, scan_src, table_view,
    lemma_scan_spans,
};
use crate::ini::{IniToken, IniTokenState, IniFile, ParseError, spans_wf};
use crate::text::{chars_of, range_text};
use crate::fixp::{fixed_str, format_fixed};

verus! {

/// One directive of the render-manifest dialect.
pub enum Token {
    Model(Vec<char>),
    ModelLod((Vec<char>, i64)),
    ModelLod2((Vec<char>, i64)),
    ModelEmissive(Vec<char>),
    Material(Vec<char>),
    MaterialEmissive(Vec<char>),
}

pub open spec fn render_table_spec() -> Seq<DirectiveS> {
    seq![
        DirectiveS { prefix: false, kw: "MODEL"@, slots: seq![Slot::Word] },
        DirectiveS { prefix: false, kw: "MODEL_LOD"@, slots: seq![Slot::Word, Slot::Fixed] },
        DirectiveS { prefix: false, kw: "MODEL_LOD2"@, slots: seq![Slot::Word, Slot::Fixed] },
        DirectiveS { prefix: false, kw: "MODELEMISSIVE"@, slots: seq![Slot::Word] },
        DirectiveS { prefix: false, kw: "MATERIAL"@, slots: seq![Slot::Word] },
        DirectiveS { prefix: false, kw: "MATERIALEMISSIVE"@, slots: seq![Slot::Word] },
    ]
}

pub fn render_table() -> (t: Vec<Directive>)
    ensures
        table_view(t@) == render_table_spec(),
{
    let mut t: Vec<Directive> = Vec::new();
    let mut s0: Vec<Slot> = Vec::new();
    s0.push(Slot::Word);
    assert(s0@ =~= seq![Slot::Word]);
    let mut s1: Vec<Slot> = Vec::new();
    s1.push(Slot::Word);
    s1.push(Slot::Fixed);
    assert(s1@ =~= seq![Slot::Word, Slot::Fixed]);
    let mut s2: Vec<Slot> = Vec::new();
    s2.push(Slot::Word);
    s2.push(Slot::Fixed);
    assert(s2@ =~= seq![Slot::Word, Slot::Fixed]);
    let mut s3: Vec<Slot> = Vec::new();
    s3.push(Slot::Word);
    assert(s3@ =~= seq![Slot::Word]);
    let mut s4: Vec<Slot> = Vec::new();
    s4.push(Slot::Word);
    assert(s4@ =~= seq![Slot::Word]);
    let mut s5: Vec<Slot> = Vec::new();
    s5.push(Slot::Word);
    assert(s5@ =~= seq![Slot::Word]);
    t.push(Directive { prefix: false, kw: chars_of("MODEL"), slots: s0 });
    t.push(Directive { prefix: false, kw: chars_of("MODEL_LOD"), slots: s1 });
    t.push(Directive { prefix: false, kw: chars_of("MODEL_LOD2"), slots: s2 });
    t.push(Directive { prefix: false, kw: chars_of("MODELEMISSIVE"), slots: s3 });
    t.push(Directive { prefix: false, kw: chars_of("MATERIAL"), slots: s4 });
    t.push(Directive { prefix: false, kw: chars_of("MATERIALEMISSIVE"), slots: s5 });
    proof {
        assert(table_view(t@) =~~= render_table_spec());
    }
    t
}

/// What a directive of kind `kind` with arguments `args` decodes to.
pub open spec fn token_matches(t: Token, kind: int, args: Seq<ArgS>) -> bool {
    if kind == 1 || kind == 2 {
        &&& args.len() == 2
        &&& args[0] is Word
        &&& args[1] is Fixed
        &&& {
            let p = args[0]->Word_0;
            let d = args[1]->Fixed_0;
            match t {
                Token::ModelLod((tp, td)) => kind == 1 && tp@ == p && td == d,
                Token::ModelLod2((tp, td)) => kind == 2 && tp@ == p && td == d,
                _ => false,
            }
        }
    } else if kind == 0 || kind == 3 || kind == 4 || kind == 5 {
        &&& args.len() == 1
        &&& args[0] is Word
        &&& {
            let p = args[0]->Word_0;
            match t {
                Token::Model(tp) => kind == 0 && tp@ == p,
                Token::ModelEmissive(tp) => kind == 3 && tp@ == p,
                Token::Material(tp) => kind == 4 && tp@ == p,
                Token::MaterialEmissive(tp) => kind == 5 && tp@ == p,
                _ => false,
            }
        }
    } else {
        false
    }
}

pub open spec fn decodable(kind: int, args: Seq<ArgS>) -> bool {
    ||| ((kind == 1 || kind == 2) && args.len() == 2 && args[0] is Word && args[1] is Fixed)
    ||| ((kind == 0 || kind == 3 || kind == 4 || kind == 5) && args.len() == 1
        && args[0] is Word)
}

pub open spec fn chunk_ok(c: ChunkS) -> bool {
    match c.tok {
        Option::Some(g) => decodable(g.kind, g.args),
        Option::None => false,
    }
}

/// The chunks that failed, in order.
pub open spec fn failed_chunks(chunks: Seq<ChunkS>) -> Seq<ChunkS>
    decreases chunks.len(),
{
    if chunks.len() == 0 {
        Seq::empty()
    } else if chunk_ok(chunks[0]) {
        failed_chunks(chunks.skip(1))
    } else {
        seq![chunks[0]] + failed_chunks(chunks.skip(1))
    }
}


fn decode(g: &GTok) -> (r: Option<Token>)
    ensures
        match r {
            Option::Some(t) => token_matches(t, g@.kind, g@.args) && decodable(g@.kind, g@.args),
            Option::None => !decodable(g@.kind, g@.args),
        },
{
    if (g.kind == 1 || g.kind == 2) && g.args.len() == 2 {
        assert(g@.args[0] == g.args@[0]@ && g@.args[1] == g.args@[1]@);
        let p: Vec<char> = match &g.args[0] {
            Arg::Word(w) => {
                let c = range_text(w, 0, w.len());
                assert(c@ =~= w@);
                assert(g.args@[0] == Arg::Word(*w));
                assert(g@.args[0] == ArgS::Word(c@));
                c
            },
            _ => {
                return None;
            },
        };
        let d: i64 = match &g.args[1] {
            Arg::Fixed(d) => *d,
            _ => {
                return None;
            },
        };
        if g.kind == 1 {
            Some(Token::ModelLod((p, d)))
        } else {
            Some(Token::ModelLod2((p, d)))
        }
    } else if (g.kind == 0 || g.kind == 3 || g.kind == 4 || g.kind == 5) && g.args.len() == 1 {
        assert(g@.args[0] == g.args@[0]@);
        let p: Vec<char> = match &g.args[0] {
            Arg::Word(w) => {
                let c = range_text(w, 0, w.len());
                assert(c@ =~= w@);
                assert(g.args@[0] == Arg::Word(*w));
                assert(g@.args[0] == ArgS::Word(c@));
                c
            },
            _ => {
                return None;
            },
        };
        if g.kind == 0 {
            Some(Token::Model(p))
        } else if g.kind == 3 {
            Some(Token::ModelEmissive(p))
        } else if g.kind == 4 {
            Some(Token::Material(p))
        } else {
            Some(Token::MaterialEmissive(p))
        }
    } else {
        None
    }
}

/// One parsed chunk corresponds to one result item: same range, the decoded
/// token on success, the raw chunk text on failure.
pub open spec fn parse_item_ok(
    src: Seq<char>,
    c: ChunkS,
    item: (Span, Result<Token, ParseError>),
) -> bool {
    &&& item.0.start == c.start
    &&& item.0.end == c.end
    &&& match item.1 {
        Result::Ok(t) => c.tok is Some && token_matches(
            t,
            c.tok->Some_0.kind,
            c.tok->Some_0.args,
        ),
        Result::Err(e) => e.chunk@ == src.subrange(c.start, c.end),
    }
    &&& (chunk_ok(c) <==> item.1 is Ok)
}

/// Scan and decode a render-manifest text; one result item per recognized
/// directive, in source order.
pub fn parse_tokens(src: &Vec<char>) -> (r: Vec<(Span, Result<Token, ParseError>)>)
    ensures
        r@.len() == scan_src(render_table_spec(), src@).len(),
        forall|i: int|
            0 <= i < r@.len() ==> parse_item_ok(
                src@,
                #[trigger] scan_src(render_table_spec(), src@)[i],
                r@[i],
            ),
{
    let tbl = render_table();
    let chunks = scan(&tbl, src);
    let ghost chs = scan_src(render_table_spec(), src@);
    proof {
        lemma_scan_spans(render_table_spec(), src@, 0, true);
    }
    let mut r: Vec<(Span, Result<Token, ParseError>)> = Vec::new();
    let n = chunks.len();
    let mut i: usize = 0;
    while i < n
        invariant
            i <= n == chunks@.len(),
            chunks@.map_values(|c: crate::scan::Chunk| c@) == chs,
            chs == scan_src(render_table_spec(), src@),
            forall|k: int|
                0 <= k < chs.len() ==> 0 <= (#[trigger] chs[k]).start <= chs[k].end
                    <= src@.len(),
            r@.len() == i,
            forall|k: int| 0 <= k < i ==> parse_item_ok(src@, #[trigger] chs[k], r@[k]),
        decreases n - i,
    {
        let c = &chunks[i];
        assert(c@ == chs[i as int]);
        let item: (Span, Result<Token, ParseError>) = match &c.tok {
            Option::Some(g) => {
                match decode(g) {
                    Option::Some(t) => (c.span, Ok(t)),
                    Option::None => (
                        c.span,
                        Err(ParseError { chunk: range_text(src, c.span.start, c.span.end) }),
                    ),
                }
            },
            Option::None => (
                c.span,
                Err(ParseError { chunk: range_text(src, c.span.start, c.span.end) }),
            ),
        };
        r.push(item);
        i += 1;
    }
    r
}

/// Strict parse: all decoded tokens in order, or every failed chunk.
pub fn parse_tokens_strict(src: &Vec<char>) -> (r: Result<
    Vec<(Span, Token)>,
    Vec<(Span, ParseError)>,
>)
    ensures
        ({
            let chs = scan_src(render_table_spec(), src@);
            match r {
                Result::Ok(toks) => {
                    &&& toks@.len() == chs.len()
                    &&& forall|i: int|
                        0 <= i < chs.len() ==> parse_item_ok(
                            src@,
                            #[trigger] chs[i],
                            (toks@[i].0, Result::Ok::<Token, ParseError>(toks@[i].1)),
                        )
                    &&& spans_wf(toks@.map_values(|p: (Span, Token)| p.0), src@.len() as int)
                },
                Result::Err(errs) => {
                    let f = failed_chunks(chs);
                    &&& f.len() >= 1
                    &&& errs@.len() == f.len()
                    &&& forall|i: int|
                        0 <= i < f.len() ==> (#[trigger] errs@[i]).0.start == f[i].start
                            && errs@[i].0.end == f[i].end && errs@[i].1.chunk@ == src@.subrange(
                            f[i].start,
                            f[i].end,
                        )
                },
            }
        }),
{
    let items = parse_tokens(src);
    let ghost chs = scan_src(render_table_spec(), src@);
    proof {
        lemma_scan_spans(render_table_spec(), src@, 0, true);
    }
    let mut toks: Vec<(Span, Token)> = Vec::new();
    let mut errs: Vec<(Span, ParseError)> = Vec::new();
    let ghost mut fails: Seq<ChunkS> = Seq::empty();
    let n = items.len();
    let mut items = items;
    let mut i: usize = 0;
    proof {
        assert(chs.skip(0) =~= chs);
    }
    while i < n
        invariant
            i <= n == chs.len(),
            items@.len() == n - i,
            forall|k: int|
                0 <= k < n - i ==> parse_item_ok(src@, #[trigger] chs[k + i], items@[k]),
            forall|k: int|
                0 <= k < chs.len() ==> 0 <= (#[trigger] chs[k]).start <= chs[k].end
                    <= src@.len(),
            forall|i2: int, j2: int|
                0 <= i2 < j2 < chs.len() ==> (#[trigger] chs[i2]).end <= (
                #[trigger] chs[j2]).start,
            fails.len() == 0 ==> toks@.len() == i,
            fails.len() == 0 ==> forall|k: int|
                0 <= k < i ==> parse_item_ok(
                    src@,
                    #[trigger] chs[k],
                    (toks@[k].0, Result::Ok::<Token, ParseError>(toks@[k].1)),
                ),
            failed_chunks(chs) == fails + failed_chunks(chs.skip(i as int)),
            errs@.len() == fails.len(),
            forall|k: int|
                0 <= k < fails.len() ==> (#[trigger] errs@[k]).0.start == fails[k].start
                    && errs@[k].0.end == fails[k].end && errs@[k].1.chunk@ == src@.subrange(
                    fails[k].start,
                    fails[k].end,
                ),
        decreases n - i,
    {
        let ghost old_items = items@;
        let ghost old_toks = toks@;
        let ghost old_errs = errs@;
        let item = items.remove(0);
        proof {
            assert(item == old_items[0]);
            assert(parse_item_ok(src@, chs[i as int], item));
            assert(forall|k: int| 0 <= k < old_items.len() - 1 ==> items@[k] == old_items[k + 1]);
            assert forall|k: int| 0 <= k < items@.len() implies parse_item_ok(
                src@,
                chs[k + i + 1],
                items@[k],
            ) by {
                assert(items@[k] == old_items[k + 1]);
                assert(parse_item_ok(src@, chs[(k + 1) + i as int], old_items[k + 1]));
            }
            assert(chs.skip(i as int)[0] == chs[i as int]);
            assert(chs.skip(i as int).skip(1) =~= chs.skip(i as int + 1));
        }
        let ghost sp0 = item.0;
        match item.1 {
            Result::Ok(t) => {
                proof {
                    assert(chunk_ok(chs[i as int]));
                    assert(failed_chunks(chs.skip(i as int)) == failed_chunks(
                        chs.skip(i as int + 1),
                    ));
                }
                toks.push((item.0, t));
                proof {
                    if fails.len() == 0 {
                        assert forall|k: int| 0 <= k < i + 1 implies parse_item_ok(
                            src@,
                            #[trigger] chs[k],
                            (toks@[k].0, Result::Ok::<Token, ParseError>(toks@[k].1)),
                        ) by {
                            if k < i {
                                assert(toks@[k] == old_toks[k]);
                            } else {
                                assert(toks@[k] == (sp0, toks@[k].1));
                            }
                        }
                    }
                }
            },
            Result::Err(e) => {
                proof {
                    assert(!chunk_ok(chs[i as int]));
                    assert(failed_chunks(chs.skip(i as int)) == seq![chs[i as int]]
                        + failed_chunks(chs.skip(i as int + 1)));
                    assert(fails + failed_chunks(chs.skip(i as int)) =~= (fails + seq![
                        chs[i as int],
                    ]) + failed_chunks(chs.skip(i as int + 1)));
                }
                errs.push((item.0, e));
                proof {
                    let oldfails = fails;
                    fails = fails + seq![chs[i as int]];
                    assert forall|k: int| 0 <= k < fails.len() implies (#[trigger] errs@[k]).0.start
                        == fails[k].start && errs@[k].0.end == fails[k].end && errs@[k].1.chunk@
                        == src@.subrange(fails[k].start, fails[k].end) by {
                        if k < oldfails.len() {
                            assert(errs@[k] == old_errs[k]);
                            assert(fails[k] == oldfails[k]);
                        } else {
                            assert(errs@[k] == errs@.last());
                            assert(fails[k] == chs[i as int]);
                        }
                    }
                }
            },
        }
        i += 1;
    }
    proof {
        assert(chs.skip(n as int) =~= Seq::<ChunkS>::empty());
        assert(failed_chunks(chs) =~= fails);
    }
    if errs.len() == 0 {
        proof {
            let sp = toks@.map_values(|p: (Span, Token)| p.0);
            assert forall|k: int| 0 <= k < sp.len() implies (#[trigger] sp[k]).start <= sp[k].end
                <= src@.len() by {
                assert(sp[k] == toks@[k].0);
                assert(parse_item_ok(
                    src@,
                    chs[k],
                    (toks@[k].0, Result::Ok::<Token, ParseError>(toks@[k].1)),
                ));
            }
            assert forall|i2: int, j2: int| 0 <= i2 < j2 < sp.len() implies (
            #[trigger] sp[i2]).end <= (#[trigger] sp[j2]).start by {
                assert(sp[i2] == toks@[i2].0);
                assert(sp[j2] == toks@[j2].0);
                assert(parse_item_ok(
                    src@,
                    chs[i2],
                    (toks@[i2].0, Result::Ok::<Token, ParseError>(toks@[i2].1)),
                ));
                assert(parse_item_ok(
                    src@,
                    chs[j2],
                    (toks@[j2].0, Result::Ok::<Token, ParseError>(toks@[j2].1)),
                ));
                assert(chs[i2].end <= chs[j2].start);
            }
            assert(spans_wf(sp, src@.len() as int));
        }
        Ok(toks)
    } else {
        Err(errs)
    }
}

impl IniToken for Token {
    open spec fn ser_spec(&self) -> Seq<char> {
        match self {
            Token::Model(p) => "MODEL"@ + seq![' '] + p@,
            Token::ModelLod((p, d)) => "MODEL_LOD"@ + seq![' '] + p@ + seq![' '] + fixed_str(
                *d as int,
            ),
            Token::ModelLod2((p, d)) => "MODEL_LOD2"@ + seq![' '] + p@ + seq![' '] + fixed_str(
                *d as int,
            ),
            Token::ModelEmissive(p) => "MODELEMISSIVE"@ + seq![' '] + p@,
            Token::Material(p) => "MATERIAL"@ + seq![' '] + p@,
            Token::MaterialEmissive(p) => "MATERIALEMISSIVE"@ + seq![' '] + p@,
        }
    }

    fn serialize(&self) -> (r: Vec<char>) {
        match self {
            Token::Model(p) => ser_path(chars_of("MODEL"), p),
            Token::ModelLod((p, d)) => ser_path_dist(chars_of("MODEL_LOD"), p, *d),
            Token::ModelLod2((p, d)) => ser_path_dist(chars_of("MODEL_LOD2"), p, *d),
            Token::ModelEmissive(p) => ser_path(chars_of("MODELEMISSIVE"), p),
            Token::Material(p) => ser_path(chars_of("MATERIAL"), p),
            Token::MaterialEmissive(p) => ser_path(chars_of("MATERIALEMISSIVE"), p),
        }
    }
}

fn ser_path(kw: Vec<char>, p: &Vec<char>) -> (r: Vec<char>)
    ensures
        r@ == kw@ + seq![' '] + p@,
{
    let ghost kws = kw@;
    let mut out = kw;
    out.push(' ');
    let mut pc = range_text(p, 0, p.len());
    out.append(&mut pc);
    proof {
        assert(out@ =~= kws + seq![' '] + p@);
    }
    out
}

fn ser_path_dist(kw: Vec<char>, p: &Vec<char>, d: i64) -> (r: Vec<char>)
    ensures
        r@ == kw@ + seq![' '] + p@ + seq![' '] + fixed_str(d as int),
{
    let ghost kws = kw@;
    let mut out = kw;
    out.push(' ');
    let mut pc = range_text(p, 0, p.len());
    out.append(&mut pc);
    out.push(' ');
    let mut ds = format_fixed(d);
    out.append(&mut ds);
    proof {
        assert(out@ =~= kws + seq![' '] + p@ + seq![' '] + fixed_str(d as int));
    }
    out
}

/// A parsed render-manifest file.
pub type RenderIni = IniFile<Token>;

/// Parse a render-manifest text strictly into a file state.
pub fn parse_renderconfig_ini(src: Vec<char>) -> (r: Result<
    RenderIni,
    Vec<(Span, ParseError)>,
>)
    ensures
        match r {
            Result::Ok(f) => {
                let chs = scan_src(render_table_spec(), src@);
                &&& f.src@ == src@
                &&& f.wf()
                &&& f.toks@.len() == chs.len()
                &&& forall|i: int|
                    0 <= i < chs.len() ==> !(#[trigger] f.toks@[i]).1.is_modified()
                        && parse_item_ok(
                        src@,
                        chs[i],
                        (f.toks@[i].0, Result::Ok::<Token, ParseError>(*f.toks@[i].1.get())),
                    )
            },
            Result::Err(errs) => {
                let f = failed_chunks(scan_src(render_table_spec(), src@));
                &&& f.len() >= 1
                &&& errs@.len() == f.len()
                &&& forall|i: int|
                    0 <= i < f.len() ==> (#[trigger] errs@[i]).0.start == f[i].start
                        && errs@[i].0.end == f[i].end && errs@[i].1.chunk@ == src@.subrange(
                        f[i].start,
                        f[i].end,
                    )
            },
        },
{
    match parse_tokens_strict(&src) {
        Result::Err(errs) => Err(errs),
        Result::Ok(toks) => {
            let ghost tv = toks@;
            let f = IniFile::from_parts(src, toks);
            proof {
                assert(forall|i: int|
                    0 <= i < tv.len() ==> (#[trigger] f.toks@[i]).1 == IniTokenState::Original(
                        tv[i].1,
                    ));
            }
            Ok(f)
        },
    }
}

} // verus!
