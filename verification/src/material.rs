//! The material dialect: texture-slot directives of a `.mtl` file.
//!
//! `$TEXTURE`/`$TEXTURE_NOMIP` bind a numbered slot to a path under the
//! stock asset root; the `_MTL` variants resolve relative to the material
//! file's own directory; `$SUBMATERIAL` names a submaterial of the model.

use vstd::prelude::*;
use crate::scan::{
    Span, Slot, Directive, DirectiveS, Arg, ArgS, GTok, Chunk, ChunkS, scan, scan_src,
    table_view, lemma_scan_spans,
};
use crate::ini::{IniToken, IniTokenState, IniFile, ParseError, spans_wf};
use crate::text::{chars_of, range_text};
use crate::fixp::dec_str;
use crate::fixp::to_dec;
use crate::paths::join_spec;
use crate::paths::path_join;

verus! {

/// One directive of the material dialect.
pub enum Token {
    Texture((u32, Vec<char>)),
    TextureNoMip((u32, Vec<char>)),
    TextureMtl((u32, Vec<char>)),
    TextureNoMipMtl((u32, Vec<char>)),
    Submaterial(Vec<char>),
}

pub open spec fn mtl_table_spec() -> Seq<DirectiveS> {
    seq![
        DirectiveS { prefix: false, kw: "$TEXTURE"@, slots: seq![Slot::UInt, Slot::Word] },
        DirectiveS { prefix: false, kw: "$TEXTURE_NOMIP"@, slots: seq![Slot::UInt, Slot::Word] },
        DirectiveS { prefix: false, kw: "$TEXTURE_MTL"@, slots: seq![Slot::UInt, Slot::Word] },
        DirectiveS { prefix: false, kw: "$TEXTURE_NOMIP_MTL"@, slots: seq![Slot::UInt, Slot::Word] },
        DirectiveS { prefix: false, kw: "$SUBMATERIAL"@, slots: seq![Slot::Word] },
    ]
}

pub fn mtl_table() -> (t: Vec<Directive>)
    ensures
        table_view(t@) == mtl_table_spec(),
{
    let mut t: Vec<Directive> = Vec::new();
    let mut s0: Vec<Slot> = Vec::new();
    s0.push(Slot::UInt);
    s0.push(Slot::Word);
    assert(s0@ =~= seq![Slot::UInt, Slot::Word]);
    let mut s1: Vec<Slot> = Vec::new();
    s1.push(Slot::UInt);
    s1.push(Slot::Word);
    assert(s1@ =~= seq![Slot::UInt, Slot::Word]);
    let mut s2: Vec<Slot> = Vec::new();
    s2.push(Slot::UInt);
    s2.push(Slot::Word);
    assert(s2@ =~= seq![Slot::UInt, Slot::Word]);
    let mut s3: Vec<Slot> = Vec::new();
    s3.push(Slot::UInt);
    s3.push(Slot::Word);
    assert(s3@ =~= seq![Slot::UInt, Slot::Word]);
    let mut s4: Vec<Slot> = Vec::new();
    s4.push(Slot::Word);
    assert(s4@ =~= seq![Slot::Word]);
    t.push(Directive { prefix: false, kw: chars_of("$TEXTURE"), slots: s0 });
    t.push(Directive { prefix: false, kw: chars_of("$TEXTURE_NOMIP"), slots: s1 });
    t.push(Directive { prefix: false, kw: chars_of("$TEXTURE_MTL"), slots: s2 });
    t.push(Directive { prefix: false, kw: chars_of("$TEXTURE_NOMIP_MTL"), slots: s3 });
    t.push(Directive { prefix: false, kw: chars_of("$SUBMATERIAL"), slots: s4 });
    proof {
        assert(table_view(t@) =~~= mtl_table_spec());
    }
    t
}

/// What a directive of kind `kind` with arguments `args` decodes to.
pub open spec fn token_matches(t: Token, kind: int, args: Seq<ArgS>) -> bool {
    if 0 <= kind <= 3 {
        &&& args.len() == 2
        &&& args[0] is UInt
        &&& args[1] is Word
        &&& {
            let n = args[0]->UInt_0;
            let p = args[1]->Word_0;
            match t {
                Token::Texture((tn, tp)) => kind == 0 && tn == n && tp@ == p,
                Token::TextureNoMip((tn, tp)) => kind == 1 && tn == n && tp@ == p,
                Token::TextureMtl((tn, tp)) => kind == 2 && tn == n && tp@ == p,
                Token::TextureNoMipMtl((tn, tp)) => kind == 3 && tn == n && tp@ == p,
                Token::Submaterial(_) => false,
            }
        }
    } else if kind == 4 {
        &&& args.len() == 1
        &&& args[0] is Word
        &&& match t {
            Token::Submaterial(s) => s@ == args[0]->Word_0,
            _ => false,
        }
    } else {
        false
    }
}

/// Whether a recognized directive decodes at all.
pub open spec fn decodable(kind: int, args: Seq<ArgS>) -> bool {
    ||| (0 <= kind <= 3 && args.len() == 2 && args[0] is UInt && args[1] is Word)
    ||| (kind == 4 && args.len() == 1 && args[0] is Word)
}

pub open spec fn chunk_ok(c: ChunkS) -> bool {
    match c.tok {
        Option::Some(g) => decodable(g.kind, g.args),
        Option::None => false,
    }
}

/// The chunks that failed, in order.
pub open spec fn failed_chunks(chunks: Seq<ChunkS>) -> Seq<ChunkS>
    decreases chunks.len(),
{
    if chunks.len() == 0 {
        Seq::empty()
    } else if chunk_ok(chunks[0]) {
        failed_chunks(chunks.skip(1))
    } else {
        seq![chunks[0]] + failed_chunks(chunks.skip(1))
    }
}


fn decode(g: &GTok) -> (r: Option<Token>)
    ensures
        match r {
            Option::Some(t) => token_matches(t, g@.kind, g@.args) && decodable(g@.kind, g@.args),
            Option::None => !decodable(g@.kind, g@.args),
        },
{
    if g.kind <= 3 && g.args.len() == 2 {
        assert(g@.args[0] == g.args@[0]@ && g@.args[1] == g.args@[1]@);
        let n: u32 = match &g.args[0] {
            Arg::UInt(n) => *n,
            _ => {
                return None;
            },
        };
        let p: Vec<char> = match &g.args[1] {
            Arg::Word(w) => {
                let c = range_text(w, 0, w.len());
                assert(c@ =~= w@);
                assert(g.args@[1] == Arg::Word(*w));
                assert(g@.args[1] == ArgS::Word(c@));
                c
            },
            _ => {
                return None;
            },
        };
        assert(g@.args[1]->Word_0 == p@);
        if g.kind == 0 {
            Some(Token::Texture((n, p)))
        } else if g.kind == 1 {
            Some(Token::TextureNoMip((n, p)))
        } else if g.kind == 2 {
            Some(Token::TextureMtl((n, p)))
        } else {
            Some(Token::TextureNoMipMtl((n, p)))
        }
    } else if g.kind == 4 && g.args.len() == 1 {
        assert(g@.args[0] == g.args@[0]@);
        match &g.args[0] {
            Arg::Word(w) => {
                let c = range_text(w, 0, w.len());
                assert(c@ =~= w@);
                assert(g.args@[0] == Arg::Word(*w));
                assert(g@.args[0] == ArgS::Word(c@));
                Some(Token::Submaterial(c))
            },
            _ => None,
        }
    } else {
        None
    }
}

/// One parsed chunk corresponds to one result item: same range, the decoded
/// token on success, the raw chunk text on failure.
pub open spec fn parse_item_ok(
    src: Seq<char>,
    c: ChunkS,
    item: (Span, Result<Token, ParseError>),
) -> bool {
    &&& item.0.start == c.start
    &&& item.0.end == c.end
    &&& match item.1 {
        Result::Ok(t) => c.tok is Some && token_matches(
            t,
            c.tok->Some_0.kind,
            c.tok->Some_0.args,
        ),
        Result::Err(e) => e.chunk@ == src.subrange(c.start, c.end),
    }
    &&& (chunk_ok(c) <==> item.1 is Ok)
}

/// Scan and decode a material text; one result item per recognized
/// directive, in source order.
pub fn parse_tokens(src: &Vec<char>) -> (r: Vec<(Span, Result<Token, ParseError>)>)
    ensures
        r@.len() == scan_src(mtl_table_spec(), src@).len(),
        forall|i: int|
            0 <= i < r@.len() ==> parse_item_ok(
                src@,
                #[trigger] scan_src(mtl_table_spec(), src@)[i],
                r@[i],
            ),
{
    let tbl = mtl_table();
    let chunks = scan(&tbl, src);
    let ghost chs = scan_src(mtl_table_spec(), src@);
    proof {
        lemma_scan_spans(mtl_table_spec(), src@, 0, true);
    }
    let mut r: Vec<(Span, Result<Token, ParseError>)> = Vec::new();
    let n = chunks.len();
    let mut i: usize = 0;
    while i < n
        invariant
            i <= n == chunks@.len(),
            chunks@.map_values(|c: Chunk| c@) == chs,
            chs == scan_src(mtl_table_spec(), src@),
            forall|k: int| 0 <= k < chs.len() ==> 0 <= (#[trigger] chs[k]).start <= chs[k].end
                <= src@.len(),
            r@.len() == i,
            forall|k: int| 0 <= k < i ==> parse_item_ok(src@, #[trigger] chs[k], r@[k]),
        decreases n - i,
    {
        let c = &chunks[i];
        assert(c@ == chs[i as int]);
        let item: (Span, Result<Token, ParseError>) = match &c.tok {
            Option::Some(g) => {
                match decode(g) {
                    Option::Some(t) => (c.span, Ok(t)),
                    Option::None => (
                        c.span,
                        Err(ParseError { chunk: range_text(src, c.span.start, c.span.end) }),
                    ),
                }
            },
            Option::None => (
                c.span,
                Err(ParseError { chunk: range_text(src, c.span.start, c.span.end) }),
            ),
        };
        r.push(item);
        i += 1;
    }
    r
}

/// Strict parse: all decoded tokens in order, or every failed chunk.
pub fn parse_tokens_strict(src: &Vec<char>) -> (r: Result<
    Vec<(Span, Token)>,
    Vec<(Span, ParseError)>,
>)
    ensures
        ({
            let chs = scan_src(mtl_table_spec(), src@);
            match r {
                Result::Ok(toks) => {
                    &&& toks@.len() == chs.len()
                    &&& forall|i: int|
                        0 <= i < chs.len() ==> parse_item_ok(
                            src@,
                            #[trigger] chs[i],
                            (toks@[i].0, Result::Ok::<Token, ParseError>(toks@[i].1)),
                        )
                    &&& spans_wf(
                        toks@.map_values(|p: (Span, Token)| p.0),
                        src@.len() as int,
                    )
                },
                Result::Err(errs) => {
                    let f = failed_chunks(chs);
                    &&& f.len() >= 1
                    &&& errs@.len() == f.len()
                    &&& forall|i: int|
                        0 <= i < f.len() ==> (#[trigger] errs@[i]).0.start == f[i].start
                            && errs@[i].0.end == f[i].end && errs@[i].1.chunk@ == src@.subrange(
                            f[i].start,
                            f[i].end,
                        )
                },
            }
        }),
{
    let items = parse_tokens(src);
    let ghost chs = scan_src(mtl_table_spec(), src@);
    proof {
        lemma_scan_spans(mtl_table_spec(), src@, 0, true);
    }
    let mut toks: Vec<(Span, Token)> = Vec::new();
    let mut errs: Vec<(Span, ParseError)> = Vec::new();
    let ghost mut fails: Seq<ChunkS> = Seq::empty();
    let n = items.len();
    let mut items = items;
    let mut i: usize = 0;
    proof {
        assert(chs.skip(0) =~= chs);
    }
    while i < n
        invariant
            i <= n == chs.len(),
            items@.len() == n - i,
            forall|k: int|
                0 <= k < n - i ==> parse_item_ok(src@, #[trigger] chs[k + i], items@[k]),
            forall|k: int|
                0 <= k < chs.len() ==> 0 <= (#[trigger] chs[k]).start <= chs[k].end
                    <= src@.len(),
            forall|i2: int, j2: int|
                0 <= i2 < j2 < chs.len() ==> (#[trigger] chs[i2]).end <= (
                #[trigger] chs[j2]).start,
            fails.len() == 0 ==> toks@.len() == i,
            fails.len() == 0 ==> forall|k: int|
                0 <= k < i ==> parse_item_ok(
                    src@,
                    #[trigger] chs[k],
                    (toks@[k].0, Result::Ok::<Token, ParseError>(toks@[k].1)),
                ),
            failed_chunks(chs) == fails + failed_chunks(chs.skip(i as int)),
            errs@.len() == fails.len(),
            forall|k: int|
                0 <= k < fails.len() ==> (#[trigger] errs@[k]).0.start == fails[k].start
                    && errs@[k].0.end == fails[k].end && errs@[k].1.chunk@ == src@.subrange(
                    fails[k].start,
                    fails[k].end,
                ),
        decreases n - i,
    {
        let ghost old_items = items@;
        let ghost old_toks = toks@;
        let ghost old_errs = errs@;
        let item = items.remove(0);
        proof {
            assert(item == old_items[0]);
            assert(parse_item_ok(src@, chs[i as int], item));
            assert(forall|k: int| 0 <= k < old_items.len() - 1 ==> items@[k] == old_items[k + 1]);
            assert forall|k: int| 0 <= k < items@.len() implies parse_item_ok(
                src@,
                chs[k + i + 1],
                items@[k],
            ) by {
                assert(items@[k] == old_items[k + 1]);
                assert(parse_item_ok(src@, chs[(k + 1) + i as int], old_items[k + 1]));
            }
            assert(chs.skip(i as int)[0] == chs[i as int]);
            assert(chs.skip(i as int).skip(1) =~= chs.skip(i as int + 1));
        }
        let ghost sp0 = item.0;
        match item.1 {
            Result::Ok(t) => {
                proof {
                    assert(chunk_ok(chs[i as int]));
                    assert(failed_chunks(chs.skip(i as int)) == failed_chunks(
                        chs.skip(i as int + 1),
                    ));
                }
                toks.push((item.0, t));
                proof {
                    if fails.len() == 0 {
                        assert forall|k: int| 0 <= k < i + 1 implies parse_item_ok(
                            src@,
                            #[trigger] chs[k],
                            (toks@[k].0, Result::Ok::<Token, ParseError>(toks@[k].1)),
                        ) by {
                            if k < i {
                                assert(toks@[k] == old_toks[k]);
                            } else {
                                assert(toks@[k] == (sp0, toks@[k].1));
                            }
                        }
                    }
                }
            },
            Result::Err(e) => {
                proof {
                    assert(!chunk_ok(chs[i as int]));
                    assert(failed_chunks(chs.skip(i as int)) == seq![chs[i as int]]
                        + failed_chunks(chs.skip(i as int + 1)));
                    assert(fails + failed_chunks(chs.skip(i as int)) =~= (fails + seq![
                        chs[i as int],
                    ]) + failed_chunks(chs.skip(i as int + 1)));
                }
                errs.push((item.0, e));
                proof {
                    let oldfails = fails;
                    fails = fails + seq![chs[i as int]];
                    assert forall|k: int| 0 <= k < fails.len() implies (#[trigger] errs@[k]).0.start
                        == fails[k].start && errs@[k].0.end == fails[k].end && errs@[k].1.chunk@
                        == src@.subrange(fails[k].start, fails[k].end) by {
                        if k < oldfails.len() {
                            assert(errs@[k] == old_errs[k]);
                            assert(fails[k] == oldfails[k]);
                        } else {
                            assert(errs@[k] == errs@.last());
                            assert(fails[k] == chs[i as int]);
                        }
                    }
                }
            },
        }
        i += 1;
    }
    proof {
        assert(chs.skip(n as int) =~= Seq::<ChunkS>::empty());
        assert(failed_chunks(chs) =~= fails);
    }
    if errs.len() == 0 {
        proof {
            let sp = toks@.map_values(|p: (Span, Token)| p.0);
            assert forall|k: int| 0 <= k < sp.len() implies (#[trigger] sp[k]).start <= sp[k].end
                <= src@.len() by {
                assert(sp[k] == toks@[k].0);
                assert(parse_item_ok(
                    src@,
                    chs[k],
                    (toks@[k].0, Result::Ok::<Token, ParseError>(toks@[k].1)),
                ));
            }
            assert forall|i2: int, j2: int| 0 <= i2 < j2 < sp.len() implies (
            #[trigger] sp[i2]).end <= (#[trigger] sp[j2]).start by {
                assert(sp[i2] == toks@[i2].0);
                assert(sp[j2] == toks@[j2].0);
                assert(parse_item_ok(
                    src@,
                    chs[i2],
                    (toks@[i2].0, Result::Ok::<Token, ParseError>(toks@[i2].1)),
                ));
                assert(parse_item_ok(
                    src@,
                    chs[j2],
                    (toks@[j2].0, Result::Ok::<Token, ParseError>(toks@[j2].1)),
                ));
                assert(chs[i2].end <= chs[j2].start);
            }
            assert(spans_wf(sp, src@.len() as int));
        }
        Ok(toks)
    } else {
        Err(errs)
    }
}

impl IniToken for Token {
    open spec fn ser_spec(&self) -> Seq<char> {
        match self {
            Token::Texture((n, p)) => "$TEXTURE"@ + seq![' '] + dec_str(*n as int) + seq![' ']
                + p@,
            Token::TextureNoMip((n, p)) => "$TEXTURE_NOMIP"@ + seq![' '] + dec_str(*n as int)
                + seq![' '] + p@,
            Token::TextureMtl((n, p)) => "$TEXTURE_MTL"@ + seq![' '] + dec_str(*n as int)
                + seq![' '] + p@,
            Token::TextureNoMipMtl((n, p)) => "$TEXTURE_NOMIP_MTL"@ + seq![' '] + dec_str(
                *n as int,
            ) + seq![' '] + p@,
            Token::Submaterial(s) => "$SUBMATERIAL"@ + seq![' '] + s@,
        }
    }

    fn serialize(&self) -> (r: Vec<char>) {
        match self {
            Token::Texture((n, p)) => ser_slot(chars_of("$TEXTURE"), *n, p),
            Token::TextureNoMip((n, p)) => ser_slot(chars_of("$TEXTURE_NOMIP"), *n, p),
            Token::TextureMtl((n, p)) => ser_slot(chars_of("$TEXTURE_MTL"), *n, p),
            Token::TextureNoMipMtl((n, p)) => ser_slot(chars_of("$TEXTURE_NOMIP_MTL"), *n, p),
            Token::Submaterial(s) => {
                let mut out = chars_of("$SUBMATERIAL");
                out.push(' ');
                let mut sc = range_text(s, 0, s.len());
                out.append(&mut sc);
                assert(out@ =~= "$SUBMATERIAL"@ + seq![' '] + s@);
                out
            },
        }
    }
}

/// `kw`, a slot number, and a path, separated by single spaces.
fn ser_slot(kw: Vec<char>, n: u32, p: &Vec<char>) -> (r: Vec<char>)
    ensures
        r@ == kw@ + seq![' '] + dec_str(n as int) + seq![' '] + p@,
{
    let ghost kws = kw@;
    let mut out = kw;
    out.push(' ');
    let mut d = to_dec(n as u64);
    out.append(&mut d);
    out.push(' ');
    let mut pc = range_text(p, 0, p.len());
    out.append(&mut pc);
    proof {
        assert(out@ =~= kws + seq![' '] + dec_str(n as int) + seq![' '] + p@);
    }
    out
}

/// A parsed material file.
pub type MaterialMtl = IniFile<Token>;

/// Parse a material text strictly into a file state.
pub fn parse_mtl(src: Vec<char>) -> (r: Result<MaterialMtl, Vec<(Span, ParseError)>>)
    ensures
        match r {
            Result::Ok(f) => {
                let chs = scan_src(mtl_table_spec(), src@);
                &&& f.src@ == src@
                &&& f.wf()
                &&& f.toks@.len() == chs.len()
                &&& forall|i: int|
                    0 <= i < chs.len() ==> !(#[trigger] f.toks@[i]).1.is_modified()
                        && parse_item_ok(
                        src@,
                        chs[i],
                        (
                            f.toks@[i].0,
                            Result::Ok::<Token, ParseError>(*f.toks@[i].1.get()),
                        ),
                    )
            },
            Result::Err(errs) => {
                let f = failed_chunks(scan_src(mtl_table_spec(), src@));
                &&& f.len() >= 1
                &&& errs@.len() == f.len()
                &&& forall|i: int|
                    0 <= i < f.len() ==> (#[trigger] errs@[i]).0.start == f[i].start
                        && errs@[i].0.end == f[i].end && errs@[i].1.chunk@ == src@.subrange(
                        f[i].start,
                        f[i].end,
                    )
            },
        },
{
    match parse_tokens_strict(&src) {
        Result::Err(errs) => Err(errs),
        Result::Ok(toks) => {
            let ghost tv = toks@;
            let f = IniFile::from_parts(src, toks);
            proof {
                assert(forall|i: int|
                    0 <= i < tv.len() ==> (#[trigger] f.toks@[i]).1 == IniTokenState::Original(
                        tv[i].1,
                    ));
            }
            Ok(f)
        },
    }
}

/// The texture path contributed by one token: `$TEXTURE`/`$TEXTURE_NOMIP`
/// resolve under the stock root, the `_MTL` forms under the material file's
/// own directory.
pub open spec fn texture_path_of(t: Token, stock: Seq<char>, dir: Seq<char>) -> Option<
    Seq<char>,
> {
    match t {
        Token::Texture((_, p)) => Option::Some(join_spec(stock, p@)),
        Token::TextureNoMip((_, p)) => Option::Some(join_spec(stock, p@)),
        Token::TextureMtl((_, p)) => Option::Some(join_spec(dir, p@)),
        Token::TextureNoMipMtl((_, p)) => Option::Some(join_spec(dir, p@)),
        Token::Submaterial(_) => Option::None,
    }
}

/// The resolved texture paths of a token sequence, in order.
pub open spec fn texture_paths_spec(toks: Seq<Token>, stock: Seq<char>, dir: Seq<char>) -> Seq<
    Seq<char>,
>
    decreases toks.len(),
{
    if toks.len() == 0 {
        Seq::empty()
    } else {
        (match texture_path_of(toks[0], stock, dir) {
            Option::Some(p) => seq![p],
            Option::None => Seq::empty(),
        }) + texture_paths_spec(toks.skip(1), stock, dir)
    }
}

pub open spec fn file_tokens(f: &MaterialMtl) -> Seq<Token> {
    f.toks@.map_values(|p: (Span, IniTokenState<Token>)| *p.1.get())
}

impl IniFile<Token> {
    /// The resolved path of every texture directive, in source order.
    pub fn get_texture_paths(&self, stock_root: &Vec<char>, mtl_dir: &Vec<char>) -> (r: Vec<
        Vec<char>,
    >)
        ensures
            r@.map_values(|p: Vec<char>| p@) == texture_paths_spec(
                file_tokens(self),
                stock_root@,
                mtl_dir@,
            ),
    {
        let ghost ts = file_tokens(self);
        let mut r: Vec<Vec<char>> = Vec::new();
        let n = self.toks.len();
        let mut i: usize = 0;
        proof {
            assert(ts.skip(0) =~= ts);
            assert(r@.map_values(|p: Vec<char>| p@) =~= Seq::<Seq<char>>::empty());
        }
        while i < n
            invariant
                i <= n == self.toks@.len(),
                ts == file_tokens(self),
                texture_paths_spec(ts, stock_root@, mtl_dir@) == r@.map_values(
                    |p: Vec<char>| p@,
                ) + texture_paths_spec(ts.skip(i as int), stock_root@, mtl_dir@),
            decreases n - i,
        {
            let ghost prev = r@;
            proof {
                assert(ts.skip(i as int)[0] == ts[i as int]);
                assert(ts.skip(i as int).skip(1) =~= ts.skip(i as int + 1));
                assert(ts[i as int] == *self.toks@[i as int].1.get());
            }
            let t = self.toks[i].1.token();
            let path: Option<Vec<char>> = match t {
                Token::Texture((_, p)) => Some(path_join(stock_root, p)),
                Token::TextureNoMip((_, p)) => Some(path_join(stock_root, p)),
                Token::TextureMtl((_, p)) => Some(path_join(mtl_dir, p)),
                Token::TextureNoMipMtl((_, p)) => Some(path_join(mtl_dir, p)),
                Token::Submaterial(_) => None,
            };
            match path {
                Option::Some(p) => {
                    proof {
                        assert(texture_path_of(ts[i as int], stock_root@, mtl_dir@)
                            == Option::Some(p@));
                    }
                    r.push(p);
                    proof {
                        assert(r@.map_values(|p: Vec<char>| p@) =~= prev.map_values(
                            |p: Vec<char>| p@,
                        ) + seq![r@.last()@]);
                    }
                },
                Option::None => {
                    proof {
                        assert(texture_path_of(ts[i as int], stock_root@, mtl_dir@) is None);
                    }
                },
            }
            i += 1;
        }
        proof {
            assert(texture_paths_spec(ts.skip(n as int), stock_root@, mtl_dir@)
                =~= Seq::<Seq<char>>::empty());
        }
        r
    }
}

} // verus!
