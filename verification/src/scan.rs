//! The chunked directive scanner shared by the three configuration dialects.
//!
//! A dialect is a table of directives; each directive is a keyword together
//! with the shapes of its arguments.  The scanner walks the source text and
//! produces, for each directive whose keyword opens a line, one chunk: the
//! exact byte range of the directive and either its decoded arguments or a
//! failure.  All other text is passed over and never reported as an error.

use vstd::prelude::*;
use crate::text::{is_ws, is_blank};
use crate::fixp::{parse_u32_spec, parse_fixed_spec, parse_u32, parse_fixed};
use crate::text::range_text;

verus! {

/// A half-open range of character offsets into the source text.
#[derive(Clone, Copy, PartialEq, Eq, Structural, Debug)]
pub struct Span {
    pub start: usize,
    pub end: usize,
}

/// The shape of one directive argument.
#[derive(Clone, Copy, PartialEq, Eq, Structural, Debug)]
pub enum Slot {
    UInt,
    Fixed,
    Word,
    Quoted,
}

/// One decoded directive argument.
#[derive(Debug)]
pub enum Arg {
    UInt(u32),
    Fixed(i64),
    Word(Vec<char>),
    Quoted(Vec<char>),
}

/// Specification-level counterpart of [`Arg`].
pub enum ArgS {
    UInt(u32),
    Fixed(i64),
    Word(Seq<char>),
    Quoted(Seq<char>),
}

impl View for Arg {
    type V = ArgS;

    open spec fn view(&self) -> ArgS {
        match self {
            Arg::UInt(v) => ArgS::UInt(*v),
            Arg::Fixed(v) => ArgS::Fixed(*v),
            Arg::Word(w) => ArgS::Word(w@),
            Arg::Quoted(w) => ArgS::Quoted(w@),
        }
    }
}

/// A recognized directive: the index of its table entry and its arguments.
#[derive(Debug)]
pub struct GTok {
    pub kind: usize,
    pub args: Vec<Arg>,
}

pub struct GTokS {
    pub kind: int,
    pub args: Seq<ArgS>,
}

impl View for GTok {
    type V = GTokS;

    open spec fn view(&self) -> GTokS {
        GTokS { kind: self.kind as int, args: self.args@.map_values(|a: Arg| a@) }
    }
}

/// One scanned chunk: its range and, for a recognized keyword, the decoded
/// directive (`None` marks a directive that failed to decode).
#[derive(Debug)]
pub struct Chunk {
    pub span: Span,
    pub tok: Option<GTok>,
}

pub struct ChunkS {
    pub start: int,
    pub end: int,
    pub tok: Option<GTokS>,
}

impl View for Chunk {
    type V = ChunkS;

    open spec fn view(&self) -> ChunkS {
        ChunkS {
            start: self.span.start as int,
            end: self.span.end as int,
            tok: match self.tok {
                Option::None => Option::None,
                Option::Some(g) => Option::Some(g@),
            },
        }
    }
}

/// One dialect directive: keyword text and argument shapes.  A `prefix`
/// directive is recognized by the start of the word alone; the rest of the
/// word becomes its first argument.
pub struct Directive {
    pub kw: Vec<char>,
    pub prefix: bool,
    pub slots: Vec<Slot>,
}

pub struct DirectiveS {
    pub kw: Seq<char>,
    pub prefix: bool,
    pub slots: Seq<Slot>,
}

impl View for Directive {
    type V = DirectiveS;

    open spec fn view(&self) -> DirectiveS {
        DirectiveS { kw: self.kw@, prefix: self.prefix, slots: self.slots@ }
    }
}

/// Whether the word `w` is recognized by directive `d`.
pub open spec fn kw_matches(d: DirectiveS, w: Seq<char>) -> bool {
    if d.prefix {
        w.len() >= d.kw.len() && w.subrange(0, d.kw.len() as int) == d.kw
    } else {
        w == d.kw
    }
}

pub open spec fn table_view(t: Seq<Directive>) -> Seq<DirectiveS> {
    t.map_values(|d: Directive| d@)
}

// ---------------------------------------------------------------------------
// position helpers

/// End of the word starting at `p`: the first position at or after `p`
/// holding whitespace, or the end of the text.
pub open spec fn word_end(src: Seq<char>, p: int) -> int
    decreases src.len() - p when 0 <= p <= src.len()
{
    if p >= src.len() {
        src.len() as int
    } else if is_ws(src[p]) {
        p
    } else {
        word_end(src, p + 1)
    }
}

/// First non-whitespace position at or after `p`.
pub open spec fn skip_ws(src: Seq<char>, p: int) -> int
    decreases src.len() - p when 0 <= p <= src.len()
{
    if p >= src.len() {
        src.len() as int
    } else if is_ws(src[p]) {
        skip_ws(src, p + 1)
    } else {
        p
    }
}

/// Position of the next line separator at or after `p`, or the end.
pub open spec fn line_end(src: Seq<char>, p: int) -> int
    decreases src.len() - p when 0 <= p <= src.len()
{
    if p >= src.len() {
        src.len() as int
    } else if src[p] == '\n' {
        p
    } else {
        line_end(src, p + 1)
    }
}

/// Position of the next `"` at or after `p`, or `-1`.
pub open spec fn find_quote(src: Seq<char>, p: int) -> int
    decreases src.len() - p when 0 <= p <= src.len()
{
    if p >= src.len() {
        -1
    } else if src[p] == '"' {
        p
    } else {
        find_quote(src, p + 1)
    }
}

pub proof fn lemma_word_end_bounds(src: Seq<char>, p: int)
    requires
        0 <= p <= src.len(),
    ensures
        p <= word_end(src, p) <= src.len(),
    decreases src.len() - p,
{
    if p < src.len() && !is_ws(src[p]) {
        lemma_word_end_bounds(src, p + 1);
    }
}

pub proof fn lemma_skip_ws_bounds(src: Seq<char>, p: int)
    requires
        0 <= p <= src.len(),
    ensures
        p <= skip_ws(src, p) <= src.len(),
        skip_ws(src, p) < src.len() ==> !is_ws(src[skip_ws(src, p)]),
    decreases src.len() - p,
{
    if p < src.len() && is_ws(src[p]) {
        lemma_skip_ws_bounds(src, p + 1);
    }
}

pub proof fn lemma_line_end_bounds(src: Seq<char>, p: int)
    requires
        0 <= p <= src.len(),
    ensures
        p <= line_end(src, p) <= src.len(),
    decreases src.len() - p,
{
    if p < src.len() && src[p] != '\n' {
        lemma_line_end_bounds(src, p + 1);
    }
}

pub proof fn lemma_find_quote_bounds(src: Seq<char>, p: int)
    requires
        0 <= p <= src.len(),
    ensures
        find_quote(src, p) == -1 || p <= find_quote(src, p) < src.len(),
    decreases src.len() - p,
{
    if p < src.len() && src[p] != '"' {
        lemma_find_quote_bounds(src, p + 1);
    }
}

// ---------------------------------------------------------------------------
// keyword lookup and argument decoding

/// Index of the first table entry recognizing the word `w`, from `k` on;
/// `-1` if there is none.
pub open spec fn kw_lookup(tab: Seq<DirectiveS>, w: Seq<char>, k: int) -> int
    decreases tab.len() - k when 0 <= k <= tab.len()
{
    if k >= tab.len() {
        -1
    } else if kw_matches(tab[k], w) {
        k
    } else {
        kw_lookup(tab, w, k + 1)
    }
}

pub proof fn lemma_kw_lookup_found(tab: Seq<DirectiveS>, w: Seq<char>, k: int)
    requires
        0 <= k <= tab.len(),
        kw_lookup(tab, w, k) != -1,
    ensures
        0 <= kw_lookup(tab, w, k) < tab.len(),
        kw_matches(tab[kw_lookup(tab, w, k)], w),
    decreases tab.len() - k,
{
    if k < tab.len() && !kw_matches(tab[k], w) {
        lemma_kw_lookup_found(tab, w, k + 1);
    }
}

pub proof fn lemma_kw_lookup_bounds(tab: Seq<DirectiveS>, w: Seq<char>, k: int)
    requires
        0 <= k <= tab.len(),
    ensures
        kw_lookup(tab, w, k) == -1 || k <= kw_lookup(tab, w, k) < tab.len(),
    decreases tab.len() - k,
{
    if k < tab.len() && !kw_matches(tab[k], w) {
        lemma_kw_lookup_bounds(tab, w, k + 1);
    }
}

/// The argument denoted by the word `w` for a non-quoted slot.
pub open spec fn arg_of(slot: Slot, w: Seq<char>) -> Option<ArgS> {
    match slot {
        Slot::UInt => match parse_u32_spec(w) {
            Option::None => Option::None,
            Option::Some(v) => Option::Some(ArgS::UInt(v)),
        },
        Slot::Fixed => match parse_fixed_spec(w) {
            Option::None => Option::None,
            Option::Some(v) => Option::Some(ArgS::Fixed(v as i64)),
        },
        Slot::Word => Option::Some(ArgS::Word(w)),
        Slot::Quoted => Option::None,
    }
}

/// Decoding of the argument list from `p` on, one slot at a time; yields
/// the arguments and the end position of the last one.
pub open spec fn take_args(slots: Seq<Slot>, j: int, src: Seq<char>, p: int) -> Option<
    (Seq<ArgS>, int),
>
    decreases slots.len() - j when 0 <= j <= slots.len() && 0 <= p <= src.len()
        via take_args_dec
{
    if j >= slots.len() {
        Option::Some((Seq::empty(), p))
    } else {
        let q = skip_ws(src, p);
        if q >= src.len() {
            Option::None
        } else if slots[j] == Slot::Quoted {
            if src[q] != '"' {
                Option::None
            } else {
                let cq = find_quote(src, q + 1);
                if cq == -1 {
                    Option::None
                } else {
                    match take_args(slots, j + 1, src, cq + 1) {
                        Option::None => Option::None,
                        Option::Some((rest, end)) => Option::Some(
                            (seq![ArgS::Quoted(src.subrange(q + 1, cq))] + rest, end),
                        ),
                    }
                }
            }
        } else {
            let we = word_end(src, q);
            match arg_of(slots[j], src.subrange(q, we)) {
                Option::None => Option::None,
                Option::Some(a) => match take_args(slots, j + 1, src, we) {
                    Option::None => Option::None,
                    Option::Some((rest, end)) => Option::Some((seq![a] + rest, end)),
                },
            }
        }
    }
}

#[via_fn]
proof fn take_args_dec(slots: Seq<Slot>, j: int, src: Seq<char>, p: int) {
    if 0 <= j < slots.len() && 0 <= p <= src.len() {
        lemma_skip_ws_bounds(src, p);
        let q = skip_ws(src, p);
        if q < src.len() {
            lemma_find_quote_bounds(src, q + 1);
            lemma_word_end_bounds(src, q);
        }
    }
}

pub proof fn lemma_take_args_bounds(slots: Seq<Slot>, j: int, src: Seq<char>, p: int)
    requires
        0 <= j <= slots.len(),
        0 <= p <= src.len(),
    ensures
        match take_args(slots, j, src, p) {
            Option::Some((args, end)) => p <= end <= src.len() && args.len() == slots.len() - j,
            Option::None => true,
        },
    decreases slots.len() - j,
{
    if j < slots.len() {
        lemma_skip_ws_bounds(src, p);
        let q = skip_ws(src, p);
        if q < src.len() {
            if slots[j] == Slot::Quoted {
                if src[q] == '"' {
                    lemma_find_quote_bounds(src, q + 1);
                    let cq = find_quote(src, q + 1);
                    if cq != -1 {
                        lemma_take_args_bounds(slots, j + 1, src, cq + 1);
                    }
                }
            } else {
                lemma_word_end_bounds(src, q);
                let we = word_end(src, q);
                lemma_take_args_bounds(slots, j + 1, src, we);
            }
        }
    }
}

// ---------------------------------------------------------------------------
// the scan itself

/// The chunks produced from `src` at and after position `p`.  `line_ok`
/// says whether only blanks stand between the current line's start and `p`:
/// a keyword is recognized only in that position.
pub open spec fn scan_spec(tab: Seq<DirectiveS>, src: Seq<char>, p: int, line_ok: bool) -> Seq<
    ChunkS,
>
    decreases src.len() - p when 0 <= p <= src.len()
        via scan_spec_dec
{
    if p >= src.len() {
        Seq::empty()
    } else if src[p] == '\n' {
        scan_spec(tab, src, p + 1, true)
    } else if is_blank(src[p]) {
        scan_spec(tab, src, p + 1, line_ok)
    } else if !line_ok {
        scan_spec(tab, src, p + 1, false)
    } else {
        let we = word_end(src, p);
        let k = kw_lookup(tab, src.subrange(p, we), 0);
        if k == -1 {
            scan_spec(tab, src, we, false)
        } else {
            let lead: Seq<ArgS> = if tab[k].prefix {
                seq![ArgS::Word(src.subrange(p + tab[k].kw.len(), we))]
            } else {
                Seq::empty()
            };
            match take_args(tab[k].slots, 0, src, we) {
                Option::Some((args, end)) => seq![
                    ChunkS {
                        start: p,
                        end: end,
                        tok: Option::Some(GTokS { kind: k, args: lead + args }),
                    },
                ] + scan_spec(tab, src, end, false),
                Option::None => {
                    let le = line_end(src, we);
                    seq![ChunkS { start: p, end: le, tok: Option::None }] + scan_spec(
                        tab,
                        src,
                        le,
                        false,
                    )
                },
            }
        }
    }
}

#[via_fn]
proof fn scan_spec_dec(tab: Seq<DirectiveS>, src: Seq<char>, p: int, line_ok: bool) {
    if 0 <= p < src.len() {
        lemma_word_end_bounds(src, p);
        let we = word_end(src, p);
        if !is_ws(src[p]) {
            assert(word_end(src, p) == word_end(src, p + 1));
            lemma_word_end_bounds(src, p + 1);
        }
        let k = kw_lookup(tab, src.subrange(p, we), 0);
        lemma_kw_lookup_bounds(tab, src.subrange(p, we), 0);
        if k != -1 {
            lemma_take_args_bounds(tab[k].slots, 0, src, we);
            lemma_line_end_bounds(src, we);
        }
    }
}

/// The chunks of a whole source text.
pub open spec fn scan_src(tab: Seq<DirectiveS>, src: Seq<char>) -> Seq<ChunkS> {
    scan_spec(tab, src, 0, true)
}

/// Chunk ranges are in bounds, ordered, and disjoint.
pub proof fn lemma_scan_spans(tab: Seq<DirectiveS>, src: Seq<char>, p: int, line_ok: bool)
    requires
        0 <= p <= src.len(),
    ensures
        forall|i: int|
            0 <= i < scan_spec(tab, src, p, line_ok).len() ==> p <= (
            #[trigger] scan_spec(tab, src, p, line_ok)[i]).start < scan_spec(
                tab,
                src,
                p,
                line_ok,
            )[i].end <= src.len(),
        forall|i: int, j: int|
            0 <= i < j < scan_spec(tab, src, p, line_ok).len() ==> (#[trigger] scan_spec(
                tab,
                src,
                p,
                line_ok,
            )[i]).end <= (#[trigger] scan_spec(tab, src, p, line_ok)[j]).start,
    decreases src.len() - p,
{
    let r = scan_spec(tab, src, p, line_ok);
    if p >= src.len() {
    } else if src[p] == '\n' {
        lemma_scan_spans(tab, src, p + 1, true);
    } else if is_blank(src[p]) {
        lemma_scan_spans(tab, src, p + 1, line_ok);
    } else if !line_ok {
        lemma_scan_spans(tab, src, p + 1, false);
    } else {
        lemma_word_end_bounds(src, p);
        let we = word_end(src, p);
        assert(we > p) by {
            assert(!is_ws(src[p]));
            assert(word_end(src, p) == word_end(src, p + 1));
            lemma_word_end_bounds(src, p + 1);
        }
        let k = kw_lookup(tab, src.subrange(p, we), 0);
        lemma_kw_lookup_bounds(tab, src.subrange(p, we), 0);
        if k == -1 {
            lemma_scan_spans(tab, src, we, false);
        } else {
            match take_args(tab[k].slots, 0, src, we) {
                Option::Some((args, end)) => {
                    lemma_take_args_bounds(tab[k].slots, 0, src, we);
                    lemma_scan_spans(tab, src, end, false);
                    let tail = scan_spec(tab, src, end, false);
                    assert(forall|i: int| 0 <= i < tail.len() ==> r[i + 1] == tail[i]);
                },
                Option::None => {
                    lemma_line_end_bounds(src, we);
                    let le = line_end(src, we);
                    lemma_scan_spans(tab, src, le, false);
                    let tail = scan_spec(tab, src, le, false);
                    assert(forall|i: int| 0 <= i < tail.len() ==> r[i + 1] == tail[i]);
                },
            }
        }
    }
}

// ---------------------------------------------------------------------------
// executable mirrors

pub fn word_end_x(src: &Vec<char>, p: usize) -> (r: usize)
    requires
        p <= src@.len(),
    ensures
        r == word_end(src@, p as int),
        p <= r <= src@.len(),
{
    let mut i: usize = p;
    while i < src.len() && !ws(src[i])
        invariant
            p <= i <= src@.len(),
            word_end(src@, p as int) == word_end(src@, i as int),
        decreases src@.len() - i,
    {
        i += 1;
    }
    proof {
        lemma_word_end_bounds(src@, p as int);
    }
    i
}

pub fn skip_ws_x(src: &Vec<char>, p: usize) -> (r: usize)
    requires
        p <= src@.len(),
    ensures
        r == skip_ws(src@, p as int),
        p <= r <= src@.len(),
{
    let mut i: usize = p;
    while i < src.len() && ws(src[i])
        invariant
            p <= i <= src@.len(),
            skip_ws(src@, p as int) == skip_ws(src@, i as int),
        decreases src@.len() - i,
    {
        i += 1;
    }
    proof {
        lemma_skip_ws_bounds(src@, p as int);
    }
    i
}

pub fn line_end_x(src: &Vec<char>, p: usize) -> (r: usize)
    requires
        p <= src@.len(),
    ensures
        r == line_end(src@, p as int),
        p <= r <= src@.len(),
{
    let mut i: usize = p;
    while i < src.len() && src[i] != '\n'
        invariant
            p <= i <= src@.len(),
            line_end(src@, p as int) == line_end(src@, i as int),
        decreases src@.len() - i,
    {
        i += 1;
    }
    proof {
        lemma_line_end_bounds(src@, p as int);
    }
    i
}

fn find_quote_x(src: &Vec<char>, p: usize) -> (r: Option<usize>)
    requires
        p <= src@.len(),
    ensures
        match r {
            Option::Some(q) => find_quote(src@, p as int) == q && p <= q < src@.len(),
            Option::None => find_quote(src@, p as int) == -1,
        },
{
    let mut i: usize = p;
    while i < src.len() && src[i] != '"'
        invariant
            p <= i <= src@.len(),
            find_quote(src@, p as int) == find_quote(src@, i as int),
        decreases src@.len() - i,
    {
        i += 1;
    }
    if i < src.len() {
        Some(i)
    } else {
        None
    }
}

/// Executable whitespace test.
pub fn ws(c: char) -> (b: bool)
    ensures
        b == is_ws(c),
{
    c == ' ' || c == '\t' || c == '\r' || c == '\n'
}

/// Executable blank test.
pub fn blank(c: char) -> (b: bool)
    ensures
        b == is_blank(c),
{
    c == ' ' || c == '\t' || c == '\r'
}

fn kw_lookup_x(tab: &Vec<Directive>, src: &Vec<char>, s: usize, e: usize) -> (r: Option<usize>)
    requires
        s <= e <= src@.len(),
    ensures
        match r {
            Option::Some(k) => kw_lookup(table_view(tab@), src@.subrange(s as int, e as int), 0)
                == k && k < tab@.len(),
            Option::None => kw_lookup(table_view(tab@), src@.subrange(s as int, e as int), 0)
                == -1,
        },
{
    let ghost w = src@.subrange(s as int, e as int);
    let mut k: usize = 0;
    while k < tab.len()
        invariant
            k <= tab@.len(),
            s <= e <= src@.len(),
            w == src@.subrange(s as int, e as int),
            kw_lookup(table_view(tab@), w, 0) == kw_lookup(table_view(tab@), w, k as int),
        decreases tab@.len() - k,
    {
        assert(table_view(tab@)[k as int] == tab@[k as int]@);
        let d = &tab[k];
        let hit: bool = if d.prefix {
            if e - s >= d.kw.len() {
                let r = crate::text::range_eq(src, s, s + d.kw.len(), &d.kw);
                proof {
                    assert(src@.subrange(s as int, s as int + d.kw@.len() as int) =~= w.subrange(
                        0,
                        d.kw@.len() as int,
                    ));
                }
                r
            } else {
                false
            }
        } else {
            crate::text::range_eq(src, s, e, &d.kw)
        };
        assert(hit == kw_matches(table_view(tab@)[k as int], w));
        if hit {
            return Some(k);
        }
        k += 1;
    }
    None
}

fn take_args_x(slots: &Vec<Slot>, j: usize, src: &Vec<char>, p: usize) -> (r: Option<
    (Vec<Arg>, usize),
>)
    requires
        j <= slots@.len(),
        p <= src@.len(),
    ensures
        match r {
            Option::Some((args, end)) => take_args(slots@, j as int, src@, p as int)
                == Option::Some((args@.map_values(|a: Arg| a@), end as int)) && p <= end
                <= src@.len(),
            Option::None => take_args(slots@, j as int, src@, p as int) is None,
        },
    decreases slots@.len() - j,
{
    if j >= slots.len() {
        let e: Vec<Arg> = Vec::new();
        assert(e@.map_values(|a: Arg| a@) =~= Seq::<ArgS>::empty());
        return Some((e, p));
    }
    let q = skip_ws_x(src, p);
    if q >= src.len() {
        return None;
    }
    let slot = slots[j];
    if slot == Slot::Quoted {
        if src[q] != '"' {
            return None;
        }
        let cq = match find_quote_x(src, q + 1) {
            Option::None => {
                return None;
            },
            Option::Some(cq) => cq,
        };
        let val = range_text(src, q + 1, cq);
        match take_args_x(slots, j + 1, src, cq + 1) {
            Option::None => None,
            Option::Some((rest, end)) => {
                let mut args: Vec<Arg> = Vec::new();
                args.push(Arg::Quoted(val));
                let mut rest = rest;
                args.append(&mut rest);
                proof {
                    let (spec_rest, spec_end) = take_args(
                        slots@,
                        j as int + 1,
                        src@,
                        cq as int + 1,
                    )->Some_0;
                    assert(args@.map_values(|a: Arg| a@) =~= seq![
                        ArgS::Quoted(src@.subrange(q as int + 1, cq as int)),
                    ] + spec_rest);
                }
                Some((args, end))
            },
        }
    } else {
        let we = word_end_x(src, q);
        let word = range_text(src, q, we);
        let ghost wv = src@.subrange(q as int, we as int);
        let a: Arg = match slot {
            Slot::UInt => {
                match parse_u32(&word) {
                    Option::None => {
                        return None;
                    },
                    Option::Some(v) => {
                        let a = Arg::UInt(v);
                        assert(arg_of(slot, wv) == Option::Some(a@));
                        a
                    },
                }
            },
            Slot::Fixed => {
                match parse_fixed(&word) {
                    Option::None => {
                        return None;
                    },
                    Option::Some(v) => {
                        let a = Arg::Fixed(v);
                        assert(arg_of(slot, wv) == Option::Some(a@));
                        a
                    },
                }
            },
            Slot::Quoted => {
                assert(false);
                return None;
            },
            Slot::Word => {
                let a = Arg::Word(word);
                assert(arg_of(slot, wv) == Option::Some(a@));
                a
            },
        };
        assert(arg_of(slot, wv) == Option::Some(a@));
        match take_args_x(slots, j + 1, src, we) {
            Option::None => None,
            Option::Some((rest, end)) => {
                let mut args: Vec<Arg> = Vec::new();
                args.push(a);
                let mut rest = rest;
                args.append(&mut rest);
                proof {
                    let (spec_rest, spec_end) = take_args(
                        slots@,
                        j as int + 1,
                        src@,
                        we as int,
                    )->Some_0;
                    assert(args@.map_values(|x: Arg| x@) =~= seq![a@] + spec_rest);
                }
                Some((args, end))
            },
        }
    }
}

/// Scan a whole source text against a dialect table.
pub fn scan(tab: &Vec<Directive>, src: &Vec<char>) -> (r: Vec<Chunk>)
    ensures
        r@.map_values(|c: Chunk| c@) == scan_src(table_view(tab@), src@),
{
    let ghost tv = table_view(tab@);
    let mut out: Vec<Chunk> = Vec::new();
    let mut p: usize = 0;
    let mut line_ok = true;
    proof {
        assert(out@.map_values(|c: Chunk| c@) =~= Seq::<ChunkS>::empty());
    }
    while p < src.len()
        invariant
            p <= src@.len(),
            tv == table_view(tab@),
            scan_src(tv, src@) == out@.map_values(|c: Chunk| c@) + scan_spec(
                tv,
                src@,
                p as int,
                line_ok,
            ),
        decreases src@.len() - p,
    {
        let c = src[p];
        if c == '\n' {
            p += 1;
            line_ok = true;
        } else if blank(c) {
            p += 1;
        } else if !line_ok {
            p += 1;
        } else {
            let we = word_end_x(src, p);
            proof {
                assert(!is_ws(src@[p as int]));
                assert(word_end(src@, p as int) == word_end(src@, p as int + 1));
                lemma_word_end_bounds(src@, p as int + 1);
                assert(we > p);
            }
            match kw_lookup_x(tab, src, p, we) {
                Option::None => {
                    proof {
                        assert(scan_spec(tv, src@, p as int, true) == scan_spec(
                            tv,
                            src@,
                            we as int,
                            false,
                        ));
                    }
                    p = we;
                    line_ok = false;
                },
                Option::Some(k) => {
                    assert(tv[k as int].slots == tab@[k as int].slots@);
                    assert(tv[k as int].kw == tab@[k as int].kw@);
                    let kl = tab[k].kw.len();
                    proof {
                        lemma_kw_lookup_found(tv, src@.subrange(p as int, we as int), 0);
                    }
                    let lead: Option<Vec<char>> = if tab[k].prefix {
                        Some(range_text(src, p + kl, we))
                    } else {
                        None
                    };
                    match take_args_x(&tab[k].slots, 0, src, we) {
                        Option::Some((args, end)) => {
                            let args = match lead {
                                Option::Some(lw) => {
                                    let mut la: Vec<Arg> = Vec::new();
                                    la.push(Arg::Word(lw));
                                    let mut rest = args;
                                    la.append(&mut rest);
                                    proof {
                                        let (spec_rest, _) = take_args(
                                            tv[k as int].slots,
                                            0,
                                            src@,
                                            we as int,
                                        )->Some_0;
                                        assert(la@.map_values(|a: Arg| a@) =~= seq![
                                            ArgS::Word(
                                                src@.subrange(
                                                    p as int + tv[k as int].kw.len() as int,
                                                    we as int,
                                                ),
                                            ),
                                        ] + spec_rest);
                                    }
                                    la
                                },
                                Option::None => args,
                            };
                            let g = GTok { kind: k, args };
                            let ch = Chunk { span: Span { start: p, end }, tok: Some(g) };
                            let ghost prev = out@;
                            proof {
                                assert(scan_spec(tv, src@, p as int, true) == seq![ch@]
                                    + scan_spec(tv, src@, end as int, false));
                            }
                            out.push(ch);
                            proof {
                                assert(out@.map_values(|c: Chunk| c@) =~= prev.map_values(
                                    |c: Chunk| c@,
                                ) + seq![ch@]);
                            }
                            p = end;
                            line_ok = false;
                        },
                        Option::None => {
                            let le = line_end_x(src, we);
                            let ch = Chunk { span: Span { start: p, end: le }, tok: None };
                            let ghost prev = out@;
                            proof {
                                assert(scan_spec(tv, src@, p as int, true) == seq![ch@]
                                    + scan_spec(tv, src@, le as int, false));
                            }
                            out.push(ch);
                            proof {
                                assert(out@.map_values(|c: Chunk| c@) =~= prev.map_values(
                                    |c: Chunk| c@,
                                ) + seq![ch@]);
                            }
                            p = le;
                            line_ok = false;
                        },
                    }
                },
            }
        }
    }
    proof {
        assert(scan_spec(tv, src@, p as int, line_ok) =~= Seq::<ChunkS>::empty());
        assert(scan_src(tv, src@) =~= out@.map_values(|c: Chunk| c@));
    }
    out
}

} // verus!
