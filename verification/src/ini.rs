//! Configuration files as ordered token chunks over their original text,
//! and the minimal-diff serializer: only directives that were replaced are
//! re-formatted, every other character of the original is reproduced.

use vstd::prelude::*;
use crate::scan::Span;
use crate::text::range_text;

verus! {

/// A directive that looked like one of the dialect's keywords but whose
/// arguments could not be decoded; carries the raw chunk text.
#[derive(Debug)]
pub struct ParseError {
    pub chunk: Vec<char>,
}

/// A dialect token that can be re-serialized.
pub trait IniToken: Sized {
    /// The serialized text of this token.
    spec fn ser_spec(&self) -> Seq<char>;

    fn serialize(&self) -> (r: Vec<char>)
        ensures
            r@ == self.ser_spec(),
    ;
}

/// A token as parsed (`Original`, serialized as its original source range)
/// or as replaced programmatically (`Modified`, serialized by formatting).
pub enum IniTokenState<T> {
    Original(T),
    Modified(T),
}

impl<T> IniTokenState<T> {
    pub open spec fn get(&self) -> &T {
        match self {
            IniTokenState::Original(t) => t,
            IniTokenState::Modified(t) => t,
        }
    }

    pub open spec fn is_modified(&self) -> bool {
        self is Modified
    }

    /// The wrapped token, whichever state it is in.
    pub fn token(&self) -> (r: &T)
        ensures
            r == self.get(),
    {
        match self {
            IniTokenState::Original(t) => t,
            IniTokenState::Modified(t) => t,
        }
    }

    /// Replace the token: `None` leaves the state untouched, `Some` marks
    /// it modified.
    pub fn modify(&mut self, t: Option<T>)
        ensures
            match t {
                Option::None => *final(self) == *old(self),
                Option::Some(v) => *final(self) == IniTokenState::Modified(v),
            },
    {
        match t {
            Option::None => {},
            Option::Some(v) => {
                *self = IniTokenState::Modified(v);
            },
        }
    }
}

/// Token ranges lie inside the text, are ordered and do not overlap.
pub open spec fn spans_wf(spans: Seq<Span>, len: int) -> bool {
    &&& forall|i: int|
        0 <= i < spans.len() ==> (#[trigger] spans[i]).start <= spans[i].end <= len
    &&& forall|i: int, j: int|
        0 <= i < j < spans.len() ==> (#[trigger] spans[i]).end <= (#[trigger] spans[j]).start
}

pub open spec fn state_spans<T>(toks: Seq<(Span, IniTokenState<T>)>) -> Seq<Span> {
    toks.map_values(|p: (Span, IniTokenState<T>)| p.0)
}

/// The serializer's result, from token `i` on with the verbatim cursor at
/// `cursor`: a `Modified` token flushes the original text up to its range,
/// then its own formatting; everything else is flushed verbatim at the end.
pub open spec fn write_from<T: IniToken>(
    src: Seq<char>,
    toks: Seq<(Span, IniTokenState<T>)>,
    i: int,
    cursor: int,
) -> Seq<char>
    decreases toks.len() - i when 0 <= i <= toks.len()
{
    if i >= toks.len() {
        src.subrange(cursor, src.len() as int)
    } else {
        match toks[i].1 {
            IniTokenState::Original(_) => write_from(src, toks, i + 1, cursor),
            IniTokenState::Modified(t) => src.subrange(cursor, toks[i].0.start as int)
                + t.ser_spec() + write_from(src, toks, i + 1, toks[i].0.end as int),
        }
    }
}

/// The serializer's result for a whole file.
pub open spec fn write_spec<T: IniToken>(
    src: Seq<char>,
    toks: Seq<(Span, IniTokenState<T>)>,
) -> Seq<char> {
    write_from(src, toks, 0, 0)
}

/// One parsed configuration file: its whole original text and its ordered
/// token chunks.
pub struct IniFile<T> {
    pub src: Vec<char>,
    pub toks: Vec<(Span, IniTokenState<T>)>,
}

impl<T: IniToken> IniFile<T> {
    pub open spec fn wf(&self) -> bool {
        spans_wf(state_spans(self.toks@), self.src@.len() as int)
    }

    /// Assemble a file state from its text and its parsed tokens; every
    /// token starts out `Original`.
    pub fn from_parts(src: Vec<char>, tokens: Vec<(Span, T)>) -> (r: IniFile<T>)
        requires
            spans_wf(tokens@.map_values(|p: (Span, T)| p.0), src@.len() as int),
        ensures
            r.src@ == src@,
            r.toks@.len() == tokens@.len(),
            forall|i: int|
                0 <= i < tokens@.len() ==> (#[trigger] r.toks@[i]).0 == tokens@[i].0
                    && r.toks@[i].1 == IniTokenState::Original(tokens@[i].1),
            r.wf(),
    {
        let ghost orig = tokens@;
        let mut tokens = tokens;
        let mut toks: Vec<(Span, IniTokenState<T>)> = Vec::new();
        let n = tokens.len();
        let mut i: usize = 0;
        while i < n
            invariant
                i <= n == orig.len(),
                tokens@ == orig.skip(i as int),
                toks@.len() == i,
                forall|j: int|
                    0 <= j < i ==> (#[trigger] toks@[j]).0 == orig[j].0 && toks@[j].1
                        == IniTokenState::Original(orig[j].1),
            decreases n - i,
        {
            let (sp, t) = tokens.remove(0);
            assert(orig.skip(i as int)[0] == orig[i as int]);
            proof {
                assert(orig.skip(i as int).skip(1) =~= orig.skip(i as int + 1));
            }
            toks.push((sp, IniTokenState::Original(t)));
            i += 1;
        }
        let r = IniFile { src, toks };
        proof {
            assert(state_spans(r.toks@) =~= orig.map_values(|p: (Span, T)| p.0));
        }
        r
    }

    /// The token chunks, in source order.
    pub fn tokens(&self) -> (r: &Vec<(Span, IniTokenState<T>)>)
        ensures
            r == &self.toks,
    {
        &self.toks
    }

    /// The token chunks, for in-place replacement.
    pub fn tokens_mut(&mut self) -> (r: &mut Vec<(Span, IniTokenState<T>)>)
        ensures
            *r == old(self).toks,
            final(self).toks == *final(r),
            final(self).src == old(self).src,
    {
        &mut self.toks
    }

    /// Serialize: reproduce the original text except inside the ranges of
    /// `Modified` tokens, which are re-formatted.
    pub fn write_to(&self) -> (out: Vec<char>)
        requires
            self.wf(),
        ensures
            out@ == write_spec(self.src@, self.toks@),
    {
        let mut out: Vec<char> = Vec::new();
        let mut cursor: usize = 0;
        let n = self.toks.len();
        let mut i: usize = 0;
        while i < n
            invariant
                self.wf(),
                i <= n == self.toks@.len(),
                cursor <= self.src@.len(),
                forall|j: int| i <= j < n ==> cursor <= (#[trigger] self.toks@[j]).0.start,
                write_spec(self.src@, self.toks@) == out@ + write_from(
                    self.src@,
                    self.toks@,
                    i as int,
                    cursor as int,
                ),
            decreases n - i,
        {
            assert(state_spans(self.toks@)[i as int] == self.toks@[i as int].0);
            match &self.toks[i].1 {
                IniTokenState::Original(_) => {
                    i += 1;
                },
                IniTokenState::Modified(t) => {
                    let sp = self.toks[i].0;
                    let mut pre = range_text(&self.src, cursor, sp.start);
                    out.append(&mut pre);
                    let mut ser = t.serialize();
                    out.append(&mut ser);
                    cursor = sp.end;
                    proof {
                        assert forall|j: int| i < j < n implies cursor <= (
                        #[trigger] self.toks@[j]).0.start by {
                            assert(state_spans(self.toks@)[j] == self.toks@[j].0);
                            assert(state_spans(self.toks@)[i as int] == self.toks@[i as int].0);
                            assert(state_spans(self.toks@)[i as int].end <= state_spans(
                                self.toks@,
                            )[j].start);
                        }
                    }
                    i += 1;
                },
            }
        }
        proof {
            assert(out@ + write_from(self.src@, self.toks@, n as int, cursor as int) =~= out@
                + self.src@.subrange(cursor as int, self.src@.len() as int));
        }
        let mut tail = range_text(&self.src, cursor, self.src.len());
        out.append(&mut tail);
        proof {
            assert(write_spec(self.src@, self.toks@) =~= out@);
        }
        out
    }
}


/// The modified tokens of a file, each with its range and its fresh
/// formatting, in source order.
pub open spec fn mods_of<T: IniToken>(toks: Seq<(Span, IniTokenState<T>)>) -> Seq<
    (Span, Seq<char>),
>
    decreases toks.len(),
{
    if toks.len() == 0 {
        Seq::empty()
    } else {
        (match toks[0].1 {
            IniTokenState::Modified(t) => seq![(toks[0].0, t.ser_spec())],
            IniTokenState::Original(_) => Seq::empty(),
        }) + mods_of(toks.skip(1))
    }
}

/// The original text with each replacement range substituted: verbatim up
/// to a range, the replacement text, and so on, verbatim to the end.
pub open spec fn patched(src: Seq<char>, mods: Seq<(Span, Seq<char>)>, cursor: int) -> Seq<char>
    decreases mods.len(),
{
    if mods.len() == 0 {
        src.subrange(cursor, src.len() as int)
    } else {
        src.subrange(cursor, mods[0].0.start as int) + mods[0].1 + patched(
            src,
            mods.skip(1),
            mods[0].0.end as int,
        )
    }
}

proof fn lemma_write_patched<T: IniToken>(
    src: Seq<char>,
    toks: Seq<(Span, IniTokenState<T>)>,
    i: int,
    cursor: int,
)
    requires
        0 <= i <= toks.len(),
    ensures
        write_from(src, toks, i, cursor) == patched(src, mods_of(toks.skip(i)), cursor),
    decreases toks.len() - i,
{
    if i < toks.len() {
        lemma_write_patched(src, toks, i + 1, cursor);
        match toks[i].1 {
            IniTokenState::Original(_) => {
                assert(toks.skip(i)[0] == toks[i]);
                assert(toks.skip(i).skip(1) =~= toks.skip(i + 1));
                assert(mods_of(toks.skip(i)) == mods_of(toks.skip(i + 1)));
            },
            IniTokenState::Modified(t) => {
                lemma_write_patched(src, toks, i + 1, toks[i].0.end as int);
                assert(toks.skip(i)[0] == toks[i]);
                assert(toks.skip(i).skip(1) =~= toks.skip(i + 1));
                let ms = mods_of(toks.skip(i));
                assert(ms == seq![(toks[i].0, t.ser_spec())] + mods_of(toks.skip(i + 1)));
                assert(ms[0] == (toks[i].0, t.ser_spec()));
                assert(ms.skip(1) =~= mods_of(toks.skip(i + 1)));
            },
        }
    } else {
        assert(toks.skip(i).len() == 0);
        assert(mods_of(toks.skip(i)) == Seq::<(Span, Seq<char>)>::empty());
    }
}

/// Minimal diff, for any set of modified tokens: the serialized text is
/// the original with exactly the modified ranges substituted, in source
/// order — every character outside those ranges is reproduced verbatim.
pub proof fn lemma_minimal_diff<T: IniToken>(src: Seq<char>, toks: Seq<(Span, IniTokenState<T>)>)
    ensures
        write_spec(src, toks) == patched(src, mods_of(toks), 0),
{
    lemma_write_patched(src, toks, 0, 0);
    assert(toks.skip(0) =~= toks);
}

/// With no token modified from `i` on, serialization flushes the rest of
/// the original text verbatim.
proof fn lemma_write_tail_original<T: IniToken>(
    src: Seq<char>,
    toks: Seq<(Span, IniTokenState<T>)>,
    i: int,
    cursor: int,
)
    requires
        0 <= i <= toks.len(),
        forall|j: int| i <= j < toks.len() ==> !(#[trigger] toks[j]).1.is_modified(),
    ensures
        write_from(src, toks, i, cursor) == src.subrange(cursor, src.len() as int),
    decreases toks.len() - i,
{
    if i < toks.len() {
        assert(!toks[i].1.is_modified());
        lemma_write_tail_original(src, toks, i + 1, cursor);
    }
}

/// Round-trip identity: serializing a file in which no token was modified
/// reproduces the original text exactly.
pub proof fn lemma_roundtrip_identity<T: IniToken>(
    src: Seq<char>,
    toks: Seq<(Span, IniTokenState<T>)>,
)
    requires
        forall|j: int| 0 <= j < toks.len() ==> !(#[trigger] toks[j]).1.is_modified(),
    ensures
        write_spec(src, toks) == src,
{
    lemma_write_tail_original(src, toks, 0, 0);
    assert(src.subrange(0, src.len() as int) =~= src);
}

proof fn lemma_write_skip_originals<T: IniToken>(
    src: Seq<char>,
    toks: Seq<(Span, IniTokenState<T>)>,
    i: int,
    k: int,
    cursor: int,
)
    requires
        0 <= i <= k <= toks.len(),
        forall|j: int| i <= j < k ==> !(#[trigger] toks[j]).1.is_modified(),
    ensures
        write_from(src, toks, i, cursor) == write_from(src, toks, k, cursor),
    decreases k - i,
{
    if i < k {
        assert(!toks[i].1.is_modified());
        lemma_write_skip_originals(src, toks, i + 1, k, cursor);
    }
}

/// Localized diff: when exactly one token is modified, the serialized text
/// is the original up to that token's range, the new formatting, and the
/// original after the range — every character outside the range is kept.
pub proof fn lemma_localized_diff<T: IniToken>(
    src: Seq<char>,
    toks: Seq<(Span, IniTokenState<T>)>,
    k: int,
)
    requires
        0 <= k < toks.len(),
        toks[k].1.is_modified(),
        forall|j: int| 0 <= j < toks.len() && j != k ==> !(#[trigger] toks[j]).1.is_modified(),
    ensures
        write_spec(src, toks) == src.subrange(0, toks[k].0.start as int)
            + toks[k].1.get().ser_spec() + src.subrange(toks[k].0.end as int, src.len() as int),
{
    lemma_write_skip_originals(src, toks, 0, k, 0);
    lemma_write_tail_original(src, toks, k + 1, toks[k].0.end as int);
}

} // verus!
