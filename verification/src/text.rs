//! Character-level helpers shared by the configuration dialects: character
//! classes, decimal digit strings and their integer values, and comparisons
//! of character vectors.

use vstd::prelude::*;

verus! {

/// Horizontal whitespace (a line's own blanks); `\r` counts so that CRLF
/// line endings behave like plain LF ones.
pub open spec fn is_blank(c: char) -> bool {
    c == ' ' || c == '\t' || c == '\r'
}

/// Any whitespace, including the line separator.
pub open spec fn is_ws(c: char) -> bool {
    is_blank(c) || c == '\n'
}

pub open spec fn is_digit(c: char) -> bool {
    48 <= (c as u32) && (c as u32) <= 57
}

pub open spec fn all_digits(s: Seq<char>) -> bool {
    forall|i: int| 0 <= i < s.len() ==> is_digit(#[trigger] s[i])
}

/// The value of a decimal digit string (most significant digit first).
pub open spec fn val10(s: Seq<char>) -> int
    decreases s.len(),
{
    if s.len() == 0 {
        0
    } else {
        val10(s.drop_last()) * 10 + ((s.last() as u32) - 48)
    }
}

pub open spec fn pow10(n: nat) -> int
    decreases n,
{
    if n == 0 {
        1
    } else {
        10 * pow10((n - 1) as nat)
    }
}

pub proof fn lemma_pow10_pos(n: nat)
    ensures
        pow10(n) >= 1,
    decreases n,
{
    if n > 0 {
        lemma_pow10_pos((n - 1) as nat);
    }
}

pub proof fn lemma_pow10_mono(a: nat, b: nat)
    requires
        a <= b,
    ensures
        pow10(a) <= pow10(b),
    decreases b,
{
    if a < b {
        lemma_pow10_mono(a, (b - 1) as nat);
        lemma_pow10_pos((b - 1) as nat);
    }
}

pub proof fn lemma_val10_bounds(s: Seq<char>)
    requires
        all_digits(s),
    ensures
        0 <= val10(s),
        val10(s) < pow10(s.len()),
    decreases s.len(),
{
    if s.len() > 0 {
        assert(all_digits(s.drop_last()));
        lemma_val10_bounds(s.drop_last());
    }
}

/// A digit string whose first digit is not zero is at least `10^(len-1)`.
pub proof fn lemma_val10_lower(s: Seq<char>)
    requires
        all_digits(s),
        s.len() >= 1,
        (s[0] as u32) != 48,
    ensures
        val10(s) >= pow10((s.len() - 1) as nat),
    decreases s.len(),
{
    if s.len() == 1 {
        assert(s.drop_last().len() == 0);
        assert(val10(s.drop_last()) == 0);
        assert(s.last() == s[0]);
        assert(is_digit(s[0]));
        assert(val10(s) == val10(s.drop_last()) * 10 + ((s.last() as u32) - 48));
        assert(pow10(0) == 1);
    } else {
        assert(all_digits(s.drop_last()));
        assert(s.drop_last()[0] == s[0]);
        lemma_val10_lower(s.drop_last());
        lemma_pow10_pos((s.len() - 2) as nat);
        assert(is_digit(s.last()));
        assert(val10(s) == val10(s.drop_last()) * 10 + ((s.last() as u32) - 48));
        assert(pow10((s.len() - 1) as nat) == 10 * pow10((s.len() - 2) as nat));
    }
}

/// A leading zero does not change the value.
pub proof fn lemma_val10_drop_leading_zero(s: Seq<char>)
    requires
        s.len() >= 1,
        (s[0] as u32) == 48,
    ensures
        val10(s) == val10(s.skip(1)),
    decreases s.len(),
{
    if s.len() == 1 {
        assert(s.drop_last().len() == 0);
        assert(val10(s.drop_last()) == 0);
        assert(s.skip(1).len() == 0);
        assert(val10(s.skip(1)) == 0);
        assert(s.last() == s[0]);
        assert(val10(s) == val10(s.drop_last()) * 10 + ((s.last() as u32) - 48));
    } else {
        assert(s.drop_last()[0] == s[0]);
        lemma_val10_drop_leading_zero(s.drop_last());
        assert(s.drop_last().skip(1) =~= s.skip(1).drop_last());
        assert(s.skip(1).last() == s.last());
        assert(val10(s) == val10(s.drop_last()) * 10 + ((s.last() as u32) - 48));
        assert(val10(s.skip(1)) == val10(s.skip(1).drop_last()) * 10 + ((s.skip(1).last() as u32)
            - 48));
    }
}

pub proof fn lemma_val10_push(s: Seq<char>, c: char)
    ensures
        val10(s.push(c)) == val10(s) * 10 + ((c as u32) - 48),
{
    assert(s.push(c).drop_last() =~= s);
    assert(s.push(c).last() == c);
}

/// Executable digit test.
pub fn digit(c: char) -> (b: bool)
    ensures
        b == is_digit(c),
{
    let u = c as u32;
    48 <= u && u <= 57
}

/// The characters of a string slice, in order.
pub fn chars_of(s: &str) -> (r: Vec<char>)
    ensures
        r@ == s@,
{
    let n = s.unicode_len();
    let mut r: Vec<char> = Vec::new();
    let mut i: usize = 0;
    while i < n
        invariant
            n == s@.len(),
            i <= n,
            r@ == s@.subrange(0, i as int),
        decreases n - i,
    {
        r.push(s.get_char(i));
        i += 1;
        assert(r@ =~= s@.subrange(0, i as int));
    }
    assert(r@ =~= s@);
    r
}

/// Equality of two character vectors.
pub fn text_eq(a: &Vec<char>, b: &Vec<char>) -> (r: bool)
    ensures
        r == (a@ == b@),
{
    if a.len() != b.len() {
        assert(a@ != b@) by {
            if a@ == b@ {
                assert(a@.len() == b@.len());
            }
        }
        return false;
    }
    let mut i: usize = 0;
    while i < a.len()
        invariant
            a@.len() == b@.len(),
            i <= a@.len(),
            forall|j: int| 0 <= j < i ==> a@[j] == b@[j],
        decreases a@.len() - i,
    {
        if a[i] != b[i] {
            return false;
        }
        i += 1;
    }
    assert(a@ =~= b@);
    true
}

/// Does `a` begin with `b`?
pub fn text_starts_with(a: &Vec<char>, b: &Vec<char>) -> (r: bool)
    ensures
        r == starts_with(a@, b@),
{
    if a.len() < b.len() {
        return false;
    }
    let mut i: usize = 0;
    while i < b.len()
        invariant
            b@.len() <= a@.len(),
            i <= b@.len(),
            forall|j: int| 0 <= j < i ==> a@[j] == b@[j],
        decreases b@.len() - i,
    {
        if a[i] != b[i] {
            assert(a@.subrange(0, b@.len() as int)[i as int] != b@[i as int]);
            return false;
        }
        i += 1;
    }
    assert(a@.subrange(0, b@.len() as int) =~= b@);
    true
}

pub open spec fn starts_with(a: Seq<char>, b: Seq<char>) -> bool {
    a.len() >= b.len() && a.subrange(0, b.len() as int) == b
}

/// Equality of a range of `src` against `w`.
pub fn range_eq(src: &Vec<char>, start: usize, end: usize, w: &Vec<char>) -> (r: bool)
    requires
        start <= end <= src@.len(),
    ensures
        r == (src@.subrange(start as int, end as int) == w@),
{
    if end - start != w.len() {
        assert(src@.subrange(start as int, end as int) != w@) by {
            if src@.subrange(start as int, end as int) == w@ {
                assert(src@.subrange(start as int, end as int).len() == w@.len());
            }
        }
        return false;
    }
    let mut i: usize = 0;
    while i < w.len()
        invariant
            start <= end <= src@.len(),
            end - start == w@.len(),
            i <= w@.len(),
            forall|j: int| 0 <= j < i ==> src@[start + j] == w@[j],
        decreases w@.len() - i,
    {
        if src[start + i] != w[i] {
            assert(src@.subrange(start as int, end as int)[i as int] != w@[i as int]);
            return false;
        }
        i += 1;
    }
    assert(src@.subrange(start as int, end as int) =~= w@);
    true
}

/// Copy of a range of `src`.
pub fn range_text(src: &Vec<char>, start: usize, end: usize) -> (r: Vec<char>)
    requires
        start <= end <= src@.len(),
    ensures
        r@ == src@.subrange(start as int, end as int),
{
    let mut r: Vec<char> = Vec::new();
    let mut i: usize = start;
    while i < end
        invariant
            start <= i <= end <= src@.len(),
            r@ == src@.subrange(start as int, i as int),
        decreases end - i,
    {
        r.push(src[i]);
        i += 1;
        assert(r@ =~= src@.subrange(start as int, i as int));
    }
    r
}

} // verus!
