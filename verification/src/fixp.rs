//! Fixed-point decimal numbers with four fractional digits.
//!
//! Every numeric directive argument and every model coordinate is held as an
//! `i64` counting ten-thousandths, so `15000` stands for `1.5`.  Parsing,
//! formatting and scaling are exact integer arithmetic; scaling truncates
//! toward zero.

use vstd::prelude::*;
use crate::text::{
    is_digit, all_digits, val10, pow10, lemma_val10_bounds, lemma_val10_lower,
    lemma_val10_drop_leading_zero, lemma_val10_push, lemma_pow10_pos, lemma_pow10_mono, digit,
};

verus! {

/// The denominator of the fixed-point representation.
pub const FIXED_ONE: i64 = 10000;

pub open spec fn abs1(x: int) -> int {
    if x >= 0 {
        x
    } else {
        -x
    }
}

/// Index of the first `.` in `s`, or `-1`.
pub open spec fn find_dot(s: Seq<char>) -> int
    decreases s.len(),
{
    if s.len() == 0 {
        -1
    } else if s[0] == '.' {
        0
    } else {
        let r = find_dot(s.skip(1));
        if r == -1 {
            -1
        } else {
            r + 1
        }
    }
}

pub proof fn lemma_find_dot_found(s: Seq<char>, i: int)
    requires
        0 <= i < s.len(),
        forall|j: int| 0 <= j < i ==> s[j] != '.',
        s[i] == '.',
    ensures
        find_dot(s) == i,
    decreases i,
{
    if i > 0 {
        assert(s[0] != '.');
        assert(s.skip(1)[i - 1] == s[i]);
        assert(forall|j: int| 0 <= j < i - 1 ==> #[trigger] s.skip(1)[j] == s[j + 1]);
        lemma_find_dot_found(s.skip(1), i - 1);
    }
}

pub proof fn lemma_find_dot_none(s: Seq<char>)
    requires
        forall|j: int| 0 <= j < s.len() ==> s[j] != '.',
    ensures
        find_dot(s) == -1,
    decreases s.len(),
{
    if s.len() > 0 {
        assert(forall|j: int| 0 <= j < s.len() - 1 ==> #[trigger] s.skip(1)[j] == s[j + 1]);
        lemma_find_dot_none(s.skip(1));
    }
}

/// The value of an unsigned decimal word: at least one digit, nothing else,
/// and small enough that sixteen digits of magnitude are never exceeded.
pub open spec fn digits_value_spec(s: Seq<char>) -> Option<int> {
    if s.len() >= 1 && all_digits(s) && val10(s) < pow10(16) {
        Some(val10(s))
    } else {
        None
    }
}

/// The fixed-point value denoted by a word: an optional `-`, an integer
/// part, and an optional `.` followed by one to four fractional digits.
pub open spec fn parse_fixed_spec(s: Seq<char>) -> Option<int> {
    let neg = s.len() > 0 && s[0] == '-';
    let t = if neg {
        s.skip(1)
    } else {
        s
    };
    let d = find_dot(t);
    let sg: int = if neg {
        -1
    } else {
        1
    };
    if d == -1 {
        if t.len() >= 1 && all_digits(t) && val10(t) * 10000 <= i64::MAX {
            Some(sg * val10(t) * 10000)
        } else {
            None
        }
    } else {
        let ip = t.subrange(0, d);
        let fp = t.subrange(d + 1, t.len() as int);
        if ip.len() >= 1 && 1 <= fp.len() <= 4 && all_digits(ip) && all_digits(fp) && val10(ip)
            * 10000 + val10(fp) * pow10((4 - fp.len()) as nat) <= i64::MAX {
            Some(sg * (val10(ip) * 10000 + val10(fp) * pow10((4 - fp.len()) as nat)))
        } else {
            None
        }
    }
}

/// The value of an unsigned decimal word that must fit in `u32`.
pub open spec fn parse_u32_spec(s: Seq<char>) -> Option<u32> {
    if s.len() >= 1 && all_digits(s) && val10(s) <= u32::MAX {
        Some(val10(s) as u32)
    } else {
        None
    }
}

proof fn lemma_pow10_16()
    ensures
        pow10(16) == 0x2386f26fc10000,
{
    reveal_with_fuel(pow10, 17);
}

/// The value of the digit range `[start, end)` of `w`, per `digits_value_spec`.
pub fn digits_value(w: &Vec<char>, start: usize, end: usize) -> (r: Option<u64>)
    requires
        start <= end <= w@.len(),
    ensures
        match r {
            Some(v) => digits_value_spec(w@.subrange(start as int, end as int)) == Some(v as int),
            None => digits_value_spec(w@.subrange(start as int, end as int)) is None,
        },
{
    let ghost s = w@.subrange(start as int, end as int);
    proof {
        lemma_pow10_16();
    }
    if start == end {
        return None;
    }
    // every character must be a digit
    let mut i: usize = start;
    while i < end
        invariant
            start <= i <= end <= w@.len(),
            s == w@.subrange(start as int, end as int),
            forall|j: int| 0 <= j < i - start ==> is_digit(#[trigger] s[j]),
        decreases end - i,
    {
        if !digit(w[i]) {
            assert(s[i - start] == w@[i as int]);
            assert(!all_digits(s));
            return None;
        }
        assert(s[i - start] == w@[i as int]);
        i += 1;
    }
    assert(all_digits(s));
    assert(s.skip(0) =~= s);
    // skip leading zeros
    let mut z: usize = start;
    while z < end && w[z] as u32 == 48
        invariant
            start <= z <= end <= w@.len(),
            s == w@.subrange(start as int, end as int),
            all_digits(s),
            val10(s) == val10(s.skip(z - start)),
        decreases end - z,
    {
        proof {
            let t = s.skip(z - start);
            assert(t[0] == w@[z as int]);
            lemma_val10_drop_leading_zero(t);
            assert(t.skip(1) =~= s.skip(z - start + 1));
        }
        z += 1;
    }
    let ghost t = s.skip(z - start);
    proof {
        assert(all_digits(t));
        lemma_val10_bounds(t);
    }
    if end - z > 16 {
        proof {
            assert(t[0] == w@[z as int]);
            lemma_val10_lower(t);
            lemma_pow10_mono(16, (t.len() - 1) as nat);
        }
        return None;
    }
    let mut acc: u64 = 0;
    let mut j: usize = z;
    while j < end
        invariant
            start <= z <= j <= end <= w@.len(),
            end - z <= 16,
            s == w@.subrange(start as int, end as int),
            t == s.skip(z - start),
            all_digits(s),
            val10(s) == val10(t),
            acc == val10(t.subrange(0, j - z)),
            acc < pow10((j - z) as nat),
        decreases end - j,
    {
        proof {
            assert(t[j - z] == w@[j as int]);
            assert(is_digit(t[j - z]));
            lemma_val10_push(t.subrange(0, j - z), t[j - z]);
            assert(t.subrange(0, j - z).push(t[j - z]) =~= t.subrange(0, j - z + 1));
            lemma_pow10_mono((j - z + 1) as nat, 16);
            lemma_pow10_16();
        }
        let d = (w[j] as u32 - 48) as u64;
        acc = acc * 10 + d;
        j += 1;
    }
    proof {
        assert(t.subrange(0, end - z) =~= t);
        lemma_pow10_mono((end - z) as nat, 16);
    }
    Some(acc)
}

/// The `u32` denoted by a decimal word.
pub fn parse_u32(w: &Vec<char>) -> (r: Option<u32>)
    ensures
        r == parse_u32_spec(w@),
{
    proof {
        lemma_pow10_16();
        assert(w@.subrange(0, w@.len() as int) =~= w@);
    }
    match digits_value(w, 0, w.len()) {
        None => {
            proof {
                if w@.len() >= 1 && all_digits(w@) {
                    lemma_val10_bounds(w@);
                }
            }
            None
        },
        Some(v) => {
            if v <= 0xffff_ffff {
                Some(v as u32)
            } else {
                None
            }
        },
    }
}

/// The fixed-point value denoted by a decimal word.
#[verifier::rlimit(60)]
pub fn parse_fixed(w: &Vec<char>) -> (r: Option<i64>)
    ensures
        match r {
            Some(v) => parse_fixed_spec(w@) == Some(v as int),
            None => parse_fixed_spec(w@) is None,
        },
{
    proof {
        lemma_pow10_16();
    }
    let neg = w.len() > 0 && w[0] == '-';
    let start: usize = if neg {
        1
    } else {
        0
    };
    let ghost t = if neg {
        w@.skip(1)
    } else {
        w@
    };
    assert(t =~= w@.subrange(start as int, w@.len() as int));
    // locate the first dot
    let mut di: usize = start;
    let mut dot = false;
    while di < w.len() && !dot
        invariant
            start <= di <= w@.len(),
            t == w@.subrange(start as int, w@.len() as int),
            !dot ==> forall|j: int| 0 <= j < di - start ==> t[j] != '.',
            dot ==> di - start < t.len() && t[di - start] == '.' && (forall|j: int|
                0 <= j < di - start ==> t[j] != '.'),
        decreases w@.len() - di, (if dot { 0int } else { 1int }),
    {
        if w[di] == '.' {
            assert(t[di - start] == w@[di as int]);
            dot = true;
        } else {
            assert(t[di - start] == w@[di as int]);
            di += 1;
        }
    }
    if !dot {
        proof {
            lemma_find_dot_none(t);
        }
        // plain integer word
        match digits_value(w, start, w.len()) {
            None => {
                proof {
                    if t.len() >= 1 && all_digits(t) {
                        lemma_val10_bounds(t);
                        if val10(t) * 10000 <= i64::MAX {
                            assert(val10(t) < pow10(16)) by {
                                lemma_pow10_16();
                                if val10(t) >= pow10(16) {
                                    assert(val10(t) * 10000 >= pow10(16) * 10000)
                                        by (nonlinear_arith)
                                        requires
                                            val10(t) >= pow10(16),
                                    ;
                                }
                            }
                        }
                    }
                }
                None
            },
            Some(v) => {
                let total: u128 = (v as u128) * 10000;
                if total <= 0x7fff_ffff_ffff_ffff {
                    let m = total as i64;
                    if neg {
                        Some(-m)
                    } else {
                        Some(m)
                    }
                } else {
                    None
                }
            },
        }
    } else {
        proof {
            lemma_find_dot_found(t, di - start);
        }
        let fplen = w.len() - (di + 1);
        if di == start || fplen < 1 || fplen > 4 {
            return None;
        }
        let ghost ip = t.subrange(0, di - start);
        let ghost fp = t.subrange(di - start + 1, t.len() as int);
        assert(ip =~= w@.subrange(start as int, di as int));
        assert(fp =~= w@.subrange(di as int + 1, w@.len() as int));
        let iv = match digits_value(w, start, di) {
            None => {
                proof {
                    if ip.len() >= 1 && all_digits(ip) && all_digits(fp) {
                        lemma_val10_bounds(ip);
                        lemma_val10_bounds(fp);
                        lemma_pow10_mono((4 - fp.len()) as nat, 4);
                        lemma_pow10_pos((4 - fp.len()) as nat);
                        if val10(ip) * 10000 + val10(fp) * pow10((4 - fp.len()) as nat)
                            <= i64::MAX {
                            assert(val10(fp) * pow10((4 - fp.len()) as nat) >= 0)
                                by (nonlinear_arith)
                                requires
                                    val10(fp) >= 0,
                                    pow10((4 - fp.len()) as nat) >= 1,
                            ;
                            if val10(ip) >= pow10(16) {
                                assert(val10(ip) * 10000 >= pow10(16) * 10000)
                                    by (nonlinear_arith)
                                    requires
                                        val10(ip) >= pow10(16),
                                ;
                            }
                        }
                    }
                }
                return None;
            },
            Some(v) => v,
        };
        let fv = match digits_value(w, di + 1, w.len()) {
            None => {
                proof {
                    if fp.len() >= 1 && all_digits(fp) {
                        lemma_val10_bounds(fp);
                        lemma_pow10_mono(fp.len(), 16);
                    }
                }
                return None;
            },
            Some(v) => v,
        };
        proof {
            reveal_with_fuel(pow10, 5);
            lemma_val10_bounds(fp);
            lemma_pow10_mono(fp.len(), 4);
            lemma_pow10_16();
            assert(iv < 0x2386f26fc10000);
            assert(fv < 0x2386f26fc10000);
        }
        let frac_scaled: u64 = if fplen == 1 {
            fv * 1000
        } else if fplen == 2 {
            fv * 100
        } else if fplen == 3 {
            fv * 10
        } else {
            fv
        };
        assert(frac_scaled == val10(fp) * pow10((4 - fp.len()) as nat));
        let total: u128 = (iv as u128) * 10000 + (frac_scaled as u128);
        if total <= 0x7fff_ffff_ffff_ffff {
            let m = total as i64;
            if neg {
                Some(-m)
            } else {
                Some(m)
            }
        } else {
            None
        }
    }
}

/// The character of one decimal digit.
pub open spec fn digit_char(d: int) -> char {
    if d == 0 {
        '0'
    } else if d == 1 {
        '1'
    } else if d == 2 {
        '2'
    } else if d == 3 {
        '3'
    } else if d == 4 {
        '4'
    } else if d == 5 {
        '5'
    } else if d == 6 {
        '6'
    } else if d == 7 {
        '7'
    } else if d == 8 {
        '8'
    } else {
        '9'
    }
}

/// The decimal text of a nonnegative integer, most significant digit first.
pub open spec fn dec_str(n: int) -> Seq<char>
    decreases n,
{
    if n < 10 {
        seq![digit_char(n)]
    } else {
        dec_str(n / 10).push(digit_char(n % 10))
    }
}

/// The serialized text of a fixed-point value: an optional `-`, the whole
/// part, a dot, and exactly four fractional digits.
pub open spec fn fixed_str(v: int) -> Seq<char> {
    let m = abs1(v);
    let sign: Seq<char> = if v < 0 {
        seq!['-']
    } else {
        seq![]
    };
    sign + dec_str(m / 10000) + seq!['.'] + seq![
        digit_char((m / 1000) % 10),
        digit_char((m / 100) % 10),
        digit_char((m / 10) % 10),
        digit_char(m % 10),
    ]
}

fn digit_char_x(d: u64) -> (c: char)
    requires
        d < 10,
    ensures
        c == digit_char(d as int),
{
    if d == 0 {
        '0'
    } else if d == 1 {
        '1'
    } else if d == 2 {
        '2'
    } else if d == 3 {
        '3'
    } else if d == 4 {
        '4'
    } else if d == 5 {
        '5'
    } else if d == 6 {
        '6'
    } else if d == 7 {
        '7'
    } else if d == 8 {
        '8'
    } else {
        '9'
    }
}

/// The decimal text of `n`.
pub fn to_dec(n: u64) -> (r: Vec<char>)
    ensures
        r@ == dec_str(n as int),
    decreases n,
{
    if n < 10 {
        let mut r: Vec<char> = Vec::new();
        r.push(digit_char_x(n));
        assert(r@ =~= dec_str(n as int));
        r
    } else {
        let mut r = to_dec(n / 10);
        r.push(digit_char_x(n % 10));
        assert(r@ =~= dec_str(n as int));
        r
    }
}

/// The serialized text of a fixed-point value.
pub fn format_fixed(v: i64) -> (r: Vec<char>)
    ensures
        r@ == fixed_str(v as int),
{
    let mut r: Vec<char> = Vec::new();
    let m: u64 = if v < 0 {
        r.push('-');
        if v == i64::MIN {
            0x8000_0000_0000_0000u64
        } else {
            (-v) as u64
        }
    } else {
        v as u64
    };
    assert(m == abs1(v as int));
    let mut whole = to_dec(m / 10000);
    r.append(&mut whole);
    r.push('.');
    r.push(digit_char_x((m / 1000) % 10));
    r.push(digit_char_x((m / 100) % 10));
    r.push(digit_char_x((m / 10) % 10));
    r.push(digit_char_x(m % 10));
    assert(r@ =~= fixed_str(v as int));
    r
}

/// A coordinate scaled by a fixed-point factor, truncating toward zero.
pub open spec fn scale_fixed(c: int, f: int) -> int {
    let p = c * f;
    if p >= 0 {
        p / 10000
    } else {
        -((-p) / 10000)
    }
}

/// Scaling; `None` when the result does not fit in an `i64`.
pub fn scale_coord(c: i64, f: i64) -> (r: Option<i64>)
    ensures
        match r {
            Some(v) => v == scale_fixed(c as int, f as int) && abs1(scale_fixed(c as int, f as int))
                <= i64::MAX,
            None => abs1(scale_fixed(c as int, f as int)) > i64::MAX,
        },
{
    proof {
        assert((c as int) * (f as int) <= i128::MAX && (c as int) * (f as int) > i128::MIN)
            by (nonlinear_arith)
            requires
                i64::MIN <= c <= i64::MAX,
                i64::MIN <= f <= i64::MAX,
        ;
    }
    let p: i128 = (c as i128) * (f as i128);
    let mag: u128 = if p >= 0 {
        p as u128
    } else {
        (-p) as u128
    };
    let q: u128 = mag / 10000;
    if q <= 0x7fff_ffff_ffff_ffff {
        if p >= 0 {
            Some(q as i64)
        } else {
            Some(-(q as i64))
        }
    } else {
        None
    }
}

/// Scaling twice by `a` then `b` differs from scaling once by the composed
/// factor by at most one truncation step plus the scaled-away remainders:
/// the gap times `10000` never exceeds `9999 + |c| + |b|`.
pub proof fn lemma_scale_compose(c: int, a: int, b: int)
    requires
        a >= 0,
        b >= 0,
    ensures
        10000 * (scale_fixed(scale_fixed(c, a), b) - scale_fixed(c, scale_fixed(a, b))) <= 9999
            + abs1(c) + b,
        10000 * (scale_fixed(c, scale_fixed(a, b)) - scale_fixed(scale_fixed(c, a), b)) <= 9999
            + abs1(c) + b,
{
    if c >= 0 {
        lemma_scale_compose_nonneg(c, a, b);
    } else {
        lemma_scale_fixed_odd(c, a);
        lemma_scale_fixed_odd(scale_fixed(-c, a), b);
        lemma_scale_fixed_odd(c, scale_fixed(a, b));
        lemma_scale_compose_nonneg(-c, a, b);
    }
}

/// Scaling is odd in the coordinate.
pub proof fn lemma_scale_fixed_odd(c: int, f: int)
    ensures
        scale_fixed(-c, f) == -scale_fixed(c, f),
{
    assert((-c) * f == -(c * f)) by (nonlinear_arith);
    if c * f == 0 {
        assert(scale_fixed(c, f) == 0);
        assert(scale_fixed(-c, f) == 0);
    }
}

proof fn lemma_scale_compose_nonneg(c: int, a: int, b: int)
    requires
        c >= 0,
        a >= 0,
        b >= 0,
    ensures
        10000 * (scale_fixed(scale_fixed(c, a), b) - scale_fixed(c, scale_fixed(a, b))) <= 9999
            + c + b,
        10000 * (scale_fixed(c, scale_fixed(a, b)) - scale_fixed(scale_fixed(c, a), b)) <= 9999
            + c + b,
{
    let d = 10000;
    assert(c * a >= 0) by (nonlinear_arith)
        requires
            c >= 0,
            a >= 0,
    ;
    assert(a * b >= 0) by (nonlinear_arith)
        requires
            a >= 0,
            b >= 0,
    ;
    let q1 = (c * a) / d;
    let r1 = (c * a) % d;
    vstd::arithmetic::div_mod::lemma_fundamental_div_mod(c * a, d);
    vstd::arithmetic::div_mod::lemma_mod_bound(c * a, d);
    vstd::arithmetic::div_mod::lemma_div_pos_is_pos(c * a, d);
    assert(scale_fixed(c, a) == q1);
    assert(q1 * b >= 0) by (nonlinear_arith)
        requires
            q1 >= 0,
            b >= 0,
    ;
    let q2 = (q1 * b) / d;
    let r2 = (q1 * b) % d;
    vstd::arithmetic::div_mod::lemma_fundamental_div_mod(q1 * b, d);
    vstd::arithmetic::div_mod::lemma_mod_bound(q1 * b, d);
    assert(scale_fixed(q1, b) == q2);
    let q3 = (a * b) / d;
    let r3 = (a * b) % d;
    vstd::arithmetic::div_mod::lemma_fundamental_div_mod(a * b, d);
    vstd::arithmetic::div_mod::lemma_mod_bound(a * b, d);
    vstd::arithmetic::div_mod::lemma_div_pos_is_pos(a * b, d);
    assert(scale_fixed(a, b) == q3);
    assert(c * q3 >= 0) by (nonlinear_arith)
        requires
            c >= 0,
            q3 >= 0,
    ;
    let q4 = (c * q3) / d;
    let r4 = (c * q3) % d;
    vstd::arithmetic::div_mod::lemma_fundamental_div_mod(c * q3, d);
    vstd::arithmetic::div_mod::lemma_mod_bound(c * q3, d);
    assert(scale_fixed(c, q3) == q4);
    // two expansions of c*a*b
    assert(c * a * b == d * (d * q2 + r2) + r1 * b) by (nonlinear_arith)
        requires
            c * a == d * q1 + r1,
            q1 * b == d * q2 + r2,
    ;
    assert(c * (a * b) == d * (d * q4 + r4) + r3 * c) by (nonlinear_arith)
        requires
            a * b == d * q3 + r3,
            c * q3 == d * q4 + r4,
    ;
    assert(c * a * b == c * (a * b)) by (nonlinear_arith);
    let k = q2 - q4;
    assert(d * (d * k) == (d * r4 + r3 * c) - (d * r2 + r1 * b)) by (nonlinear_arith)
        requires
            d * (d * q2 + r2) + r1 * b == d * (d * q4 + r4) + r3 * c,
            k == q2 - q4,
    ;
    assert(r3 * c <= (d - 1) * c) by (nonlinear_arith)
        requires
            r3 <= d - 1,
            c >= 0,
    ;
    assert(r1 * b <= (d - 1) * b) by (nonlinear_arith)
        requires
            r1 <= d - 1,
            b >= 0,
    ;
    assert(r1 * b >= 0) by (nonlinear_arith)
        requires
            r1 >= 0,
            b >= 0,
    ;
    assert(r3 * c >= 0) by (nonlinear_arith)
        requires
            r3 >= 0,
            c >= 0,
    ;
    // d*(d*k) <= d*(d-1) + (d-1)*c  and  >= -(d*(d-1) + (d-1)*b)
    assert(d * (d * k) <= d * (d - 1) + (d - 1) * c);
    assert(d * (d * k) >= -(d * (d - 1)) - (d - 1) * b);
    assert(d * k <= d - 1 + c) by (nonlinear_arith)
        requires
            d * (d * k) <= d * (d - 1) + (d - 1) * c,
            d == 10000,
            c >= 0,
    ;
    assert(d * k >= -(d - 1) - b) by (nonlinear_arith)
        requires
            d * (d * k) >= -(d * (d - 1)) - (d - 1) * b,
            d == 10000,
            b >= 0,
    ;
}

/// Exact composition: when neither intermediate product is truncated, the
/// two orders of scaling agree exactly.
pub proof fn lemma_scale_compose_exact(c: int, a: int, b: int)
    requires
        c >= 0,
        a >= 0,
        b >= 0,
        (c * a) % 10000 == 0,
        (a * b) % 10000 == 0,
    ensures
        scale_fixed(scale_fixed(c, a), b) == scale_fixed(c, scale_fixed(a, b)),
{
    lemma_scale_compose_nonneg(c, a, b);
    let d = 10000;
    let s2 = scale_fixed(scale_fixed(c, a), b);
    let sp = scale_fixed(c, scale_fixed(a, b));
    assert(c * a >= 0) by (nonlinear_arith)
        requires
            c >= 0,
            a >= 0,
    ;
    assert(a * b >= 0) by (nonlinear_arith)
        requires
            a >= 0,
            b >= 0,
    ;
    let q1 = (c * a) / d;
    vstd::arithmetic::div_mod::lemma_fundamental_div_mod(c * a, d);
    vstd::arithmetic::div_mod::lemma_div_pos_is_pos(c * a, d);
    assert(scale_fixed(c, a) == q1);
    assert(q1 * b >= 0) by (nonlinear_arith)
        requires
            q1 >= 0,
            b >= 0,
    ;
    let q2 = (q1 * b) / d;
    let r2 = (q1 * b) % d;
    vstd::arithmetic::div_mod::lemma_fundamental_div_mod(q1 * b, d);
    vstd::arithmetic::div_mod::lemma_mod_bound(q1 * b, d);
    let q3 = (a * b) / d;
    vstd::arithmetic::div_mod::lemma_fundamental_div_mod(a * b, d);
    vstd::arithmetic::div_mod::lemma_div_pos_is_pos(a * b, d);
    assert(scale_fixed(a, b) == q3);
    assert(c * q3 >= 0) by (nonlinear_arith)
        requires
            c >= 0,
            q3 >= 0,
    ;
    let q4 = (c * q3) / d;
    let r4 = (c * q3) % d;
    vstd::arithmetic::div_mod::lemma_fundamental_div_mod(c * q3, d);
    vstd::arithmetic::div_mod::lemma_mod_bound(c * q3, d);
    assert(scale_fixed(c, q3) == q4);
    assert(c * a * b == d * (d * q2 + r2)) by (nonlinear_arith)
        requires
            c * a == d * q1,
            q1 * b == d * q2 + r2,
    ;
    assert(c * (a * b) == d * (d * q4 + r4)) by (nonlinear_arith)
        requires
            a * b == d * q3,
            c * q3 == d * q4 + r4,
    ;
    assert(c * a * b == c * (a * b)) by (nonlinear_arith);
    let k = q2 - q4;
    assert(d * (d * k) == d * r4 - d * r2) by (nonlinear_arith)
        requires
            d * (d * q2 + r2) == d * (d * q4 + r4),
            k == q2 - q4,
    ;
    assert(k == 0) by (nonlinear_arith)
        requires
            d * (d * k) == d * r4 - d * r2,
            0 <= r2 < d,
            0 <= r4 < d,
            d == 10000,
    ;
    assert(s2 == q2);
    assert(sp == q4);
}

} // verus!
