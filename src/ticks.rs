//! Arithmetic, formatting and parsing of tick counts, shared by every width.
use vstd::prelude::*;

use crate::error::{ErrorKind, ToleranceError};
use crate::text::{
    all_digits, chars_of, digits_upto, digits_value, find_char, find_non_digit, first_non_digit,
    index_of, is_digit, is_space, lemma_digits_nonneg, lemma_digits_prefix, lemma_index_of,
    lemma_nat_digits, lemma_pad4, nat_digits, pad4, push_digits, push_str, slice_of, string_of,
    trim, trim_chars, trim_start,
};
use crate::unit::{lemma_pow10_bound, pow10, Unit};

verus! {

/// The remainder of `v / m` rounded toward zero, as `%` computes it on machine integers.
pub open spec fn trunc_rem(v: int, m: int) -> int {
    if v >= 0 {
        v % m
    } else {
        -((-v) % m)
    }
}

/// The multiple of `m` nearest to `v`, a tie going away from zero; `m == 0` keeps `v`.
///
/// `v - trunc_rem(v, m)` is the multiple next to `v` toward zero; where the rest is at least half
/// of `m`, the next multiple away from zero is at least as near.
#[verifier::opaque]
pub open spec fn round_to(v: int, m: int) -> int {
    if m == 0 {
        v
    } else {
        let clip = trunc_rem(v, m);
        if clip == 0 {
            v
        } else if 2 * abs(clip) >= m {
            if clip < 0 {
                v - clip - m
            } else {
                v - clip + m
            }
        } else {
            v - clip
        }
    }
}

/// The greatest multiple of `m` that is not above `v`.
pub open spec fn floor_to(v: int, m: int) -> int {
    v - v % m
}

/// The fewest fraction digits (one to four) that show `v` ticks as millimeters exactly.
pub open spec fn auto_precision(v: int) -> nat {
    if v % 1000 == 0 {
        1
    } else if v % 100 == 0 {
        2
    } else if v % 10 == 0 {
        3
    } else {
        4
    }
}

pub open spec fn abs(v: int) -> int {
    if v < 0 {
        -v
    } else {
        v
    }
}

/// `v` ticks as millimeters with `p <= 4` fraction digits, rounded half away from zero; with
/// `sign_plus` a value that is not negative starts with `+`.
#[verifier::opaque]
pub open spec fn fmt_ticks(v: int, p: nat, sign_plus: bool) -> Seq<char> {
    let r = round_to(v, pow10((4 - p) as nat));
    let a = abs(r);
    let sign = if r < 0 {
        seq!['-']
    } else if sign_plus {
        seq!['+']
    } else {
        Seq::<char>::empty()
    };
    let fraction = if p > 0 {
        seq!['.'] + pad4(a % 10_000).take(p as int)
    } else {
        Seq::<char>::empty()
    };
    sign + nat_digits((a / 10_000) as nat) + fraction
}

/// The first byte of the UTF-8 encoding of `c`.
pub open spec fn utf8_lead(c: char) -> nat {
    let u = c as u32;
    if u < 0x80 {
        u as nat
    } else if u < 0x800 {
        (0xc0 + u / 64) as nat
    } else if u < 0x10000 {
        (0xe0 + u / 4096) as nat
    } else {
        (0xf0 + u / 262144) as nat
    }
}

pub open spec fn empty_msg(name: Seq<char>) -> Seq<char> {
    "Cannot parse an empty string into a "@ + name + "!"@
}

pub open spec fn not_number_msg(t: Seq<char>) -> Seq<char> {
    "Not a valid Number: '"@ + t + "'"@
}

pub open spec fn bad_char_msg(c: char, name: Seq<char>) -> Seq<char> {
    "Found ascii #"@ + nat_digits(utf8_lead(c)) + " (a non-numerical literal) in input, can't parse input into a "@
        + name + "!"@
}

pub open spec fn too_big_msg(s: Seq<char>, name: Seq<char>) -> Seq<char> {
    s + " is to big for "@ + name
}

/// The integer part and the fraction part of a number text, split at its first `.`.
pub open spec fn split_number(t: Seq<char>) -> (Seq<char>, Seq<char>) {
    let d = index_of(t, '.');
    if d < t.len() {
        (t.take(d), t.skip(d + 1))
    } else {
        (t, seq!['0'])
    }
}

pub open spec fn has_sign(base: Seq<char>) -> bool {
    base.len() > 0 && (base[0] == '-' || base[0] == '+')
}

/// The integer part without its sign.
pub open spec fn unsigned_part(base: Seq<char>) -> Seq<char> {
    if has_sign(base) {
        base.drop_first()
    } else {
        base
    }
}

/// The fraction part cut or padded with zeros to four digits.
pub open spec fn fraction4(frac: Seq<char>) -> Seq<char> {
    (frac + seq!['0', '0', '0', '0', '0']).take(4)
}

/// What a millimeter text `s` means in ticks, within `min..=max`, or the error that it gives;
/// `name` names the target type in the messages.
///
/// The text is trimmed; `[sign] digits ['.' digits]`, where the integer digits may be left out
/// when a point follows; every character of both parts must be a digit, and the fraction is then
/// cut or padded to four digits.
pub open spec fn number_outcome(s: Seq<char>, name: Seq<char>, min: int, max: int) -> Result<
    int,
    (ErrorKind, Seq<char>),
> {
    let t = trim(s);
    let (base, frac) = split_number(t);
    let body = unsigned_part(base);
    let f4 = fraction4(frac);
    if t.len() == 0 {
        Err((ErrorKind::Parse, empty_msg(name)))
    } else if body.len() == 0 && index_of(t, '.') == t.len() {
        Err((ErrorKind::Parse, not_number_msg(t)))
    } else if !all_digits(body) {
        Err((ErrorKind::Parse, bad_char_msg(body[first_non_digit(body)], name)))
    } else if !all_digits(frac) {
        Err((ErrorKind::Parse, bad_char_msg(frac[first_non_digit(frac)], name)))
    } else {
        let mag = digits_value(body) * 10_000 + digits_value(f4);
        let n = if base.len() > 0 && base[0] == '-' {
            -mag
        } else {
            mag
        };
        if min <= n <= max {
            Ok(n)
        } else {
            Err((ErrorKind::Overflow, too_big_msg(s, name)))
        }
    }
}

/// A remainder rounded toward zero is smaller than the divisor and than the dividend.
pub proof fn lemma_trunc_rem_bound(v: int, m: int)
    requires
        m > 0,
    ensures
        abs(trunc_rem(v, m)) < m,
        abs(trunc_rem(v, m)) <= abs(v),
        v >= 0 ==> trunc_rem(v, m) >= 0,
        v < 0 ==> trunc_rem(v, m) <= 0,
{
    let a = abs(v);
    vstd::arithmetic::div_mod::lemma_fundamental_div_mod(a, m);
    assert(a / m >= 0) by {
        vstd::arithmetic::div_mod::lemma_div_pos_is_pos(a, m);
    }
    assert(m * (a / m) >= 0) by (nonlinear_arith)
        requires
            m > 0,
            a / m >= 0,
    ;
    assert(0 <= a % m < m) by {
        vstd::arithmetic::div_mod::lemma_mod_pos_bound(a, m);
    }
}

/// Rounding moves a value by less than one unit.
pub proof fn lemma_round_bound(v: int, m: int)
    requires
        m >= 0,
    ensures
        abs(round_to(v, m)) <= abs(v) + m,
{
    reveal(round_to);
    if m > 0 {
        lemma_trunc_rem_bound(v, m);
    }
}

/// A multiple of `m` has no remainder.
proof fn lemma_trunc_rem_multiple(k: int, m: int)
    requires
        m > 0,
    ensures
        trunc_rem(k * m, m) == 0,
{
    vstd::arithmetic::div_mod::lemma_mod_multiples_basic(k, m);
    vstd::arithmetic::div_mod::lemma_mod_multiples_basic(-k, m);
    assert((-k) * m == -(k * m)) by (nonlinear_arith);
}

/// Rounding lands on a multiple of the unit.
proof fn lemma_round_multiple(v: int, m: int) -> (k: int)
    requires
        m > 0,
    ensures
        round_to(v, m) == k * m,
{
    reveal(round_to);
    let a = abs(v);
    vstd::arithmetic::div_mod::lemma_fundamental_div_mod(a, m);
    let q = if v >= 0 {
        a / m
    } else {
        -(a / m)
    };
    assert(v - trunc_rem(v, m) == q * m) by (nonlinear_arith)
        requires
            a == m * (a / m) + a % m,
            a == abs(v),
            q == (if v >= 0 {
                a / m
            } else {
                -(a / m)
            }),
            trunc_rem(v, m) == (if v >= 0 {
                a % m
            } else {
                -(a % m)
            }),
    ;
    let clip = trunc_rem(v, m);
    assert((q - 1) * m == q * m - m && (q + 1) * m == q * m + m) by (nonlinear_arith);
    if clip == 0 {
        q
    } else if 2 * abs(clip) >= m {
        if clip < 0 {
            q - 1
        } else {
            q + 1
        }
    } else {
        q
    }
}

/// Rounding a rounded value again changes nothing.
pub proof fn lemma_round_idempotent(v: int, m: int)
    requires
        m >= 0,
    ensures
        round_to(round_to(v, m), m) == round_to(v, m),
{
    reveal(round_to);
    if m > 0 {
        let k = lemma_round_multiple(v, m);
        lemma_trunc_rem_multiple(k, m);
    }
}

/// The sign that `fmt_ticks` puts in front of `v`.
pub open spec fn sign_text(v: int, sign_plus: bool) -> Seq<char> {
    if v < 0 {
        seq!['-']
    } else if sign_plus {
        seq!['+']
    } else {
        Seq::<char>::empty()
    }
}

/// `a` ticks as millimeters with four fraction digits and no sign.
pub open spec fn unsigned_text(a: nat) -> Seq<char> {
    nat_digits(a / 10_000) + (seq!['.'] + pad4((a % 10_000) as int))
}

/// Whether `s` holds only digits and points.
pub open spec fn plain(s: Seq<char>) -> bool {
    forall|i: int| 0 <= i < s.len() ==> is_digit(#[trigger] s[i]) || s[i] == '.'
}

/// Rounding to single ticks changes nothing.
pub proof fn lemma_round_one(v: int)
    ensures
        round_to(v, 1) == v,
{
    reveal(round_to);
}

/// With four fraction digits, a length shows its sign and then its digits.
pub proof fn lemma_fmt_full(v: int, sign_plus: bool)
    ensures
        fmt_ticks(v, 4, sign_plus) == sign_text(v, sign_plus) + unsigned_text(abs(v) as nat),
        plain(unsigned_text(abs(v) as nat)),
        unsigned_text(abs(v) as nat).len() >= 6,
        is_digit(unsigned_text(abs(v) as nat)[0]),
        is_digit(unsigned_text(abs(v) as nat).last()),
{
    reveal(fmt_ticks);
    lemma_round_one(v);
    assert(pow10(0) == 1);
    let a = abs(v);
    let w = nat_digits((a / 10_000) as nat);
    let f = pad4(a % 10_000);
    lemma_nat_digits((a / 10_000) as nat);
    lemma_pad4(a % 10_000);
    assert(f.take(4) =~= f);
    let u = unsigned_text(a as nat);
    assert(fmt_ticks(v, 4, sign_plus) =~= sign_text(v, sign_plus) + u);
    assert(plain(u)) by {
        assert forall|i: int| 0 <= i < u.len() implies is_digit(#[trigger] u[i]) || u[i] == '.' by {
            if i < w.len() {
                assert(u[i] == w[i]);
            } else if i > w.len() {
                assert(u[i] == f[i - w.len() - 1]);
            }
        }
    }
    assert(u[0] == w[0]);
    assert(u.last() == f[3]);
}

/// A signed text of four fraction digits reads back as its ticks.
#[verifier::rlimit(30)]
pub proof fn lemma_number_text(pre: Seq<char>, a: nat, name: Seq<char>, min: int, max: int)
    requires
        pre == seq!['-'] || pre == seq!['+'] || pre.len() == 0,
        min <= (if pre == seq!['-'] {
            -a
        } else {
            a as int
        }) <= max,
    ensures
        number_outcome(pre + unsigned_text(a), name, min, max) == Ok::<int, (ErrorKind, Seq<char>)>(
            if pre == seq!['-'] {
                -a
            } else {
                a as int
            },
        ),
{
    let w = nat_digits(a / 10_000);
    let f = pad4((a % 10_000) as int);
    lemma_nat_digits(a / 10_000);
    lemma_pad4((a % 10_000) as int);
    let s = pre + unsigned_text(a);
    assert(s =~= pre + w + (seq!['.'] + f));
    let k: int = (pre.len() + w.len()) as int;
    assert(!is_space(s[0])) by {
        if pre.len() == 0 {
            assert(s[0] == w[0]);
            assert(is_digit(w[0]));
        }
    }
    assert(!is_space(s.last())) by {
        assert(s.last() == f[3]);
        assert(is_digit(f[3]));
    }
    assert(trim_start(s) == s);
    assert(trim(s) == s);
    assert forall|j: int| 0 <= j < k implies #[trigger] s[j] != '.' by {
        if j >= pre.len() {
            assert(s[j] == w[j - pre.len()]);
            assert(is_digit(w[j - pre.len()]));
        }
    }
    assert(s[k] == '.');
    lemma_index_of(s, '.', k);
    let (base, frac) = split_number(s);
    assert(base =~= pre + w);
    assert(frac =~= f);
    let body = unsigned_part(base);
    assert(body =~= w) by {
        if pre.len() == 0 {
            assert(base[0] == w[0]);
            assert(is_digit(w[0]));
        }
    }
    assert(fraction4(frac) =~= f);
    assert(index_of(s, '.') < s.len());
    assert(all_digits(frac));
    assert(all_digits(body));
    assert((a / 10_000) * 10_000 + a % 10_000 == a);
}

/// A length shown with all four fraction digits reads back as the same ticks.
pub proof fn lemma_display_parse(v: int, name: Seq<char>, min: int, max: int)
    requires
        min <= v <= max,
    ensures
        number_outcome(display_ticks(v, Some(4usize), false), name, min, max) == Ok::<
            int,
            (ErrorKind, Seq<char>),
        >(v),
{
    lemma_fmt_full(v, false);
    lemma_number_text(sign_text(v, false), abs(v) as nat, name, min, max);
}

/// `v` rounded to a multiple of `m` as `round_to` says.
pub fn round_ticks(v: i64, m: i64) -> (r: i128)
    requires
        m >= 0,
    ensures
        r == round_to(v as int, m as int),
{
    reveal(round_to);
    if m == 0 {
        return v as i128;
    }
    let vi = v as i128;
    let mi = m as i128;
    let clip: i128 = if vi >= 0 {
        ((vi as u128) % (mi as u128)) as i128
    } else {
        -((((-vi) as u128) % (mi as u128)) as i128)
    };
    let twice: i128 = if clip < 0 {
        -2 * clip
    } else {
        2 * clip
    };
    if clip == 0 {
        vi
    } else if twice >= mi {
        if clip < 0 {
            vi - clip - mi
        } else {
            vi - clip + mi
        }
    } else {
        vi - clip
    }
}

/// The greatest multiple of `m` that is not above `v`.
pub fn floor_ticks(v: i64, m: i64) -> (r: i128)
    requires
        m > 0,
    ensures
        r == floor_to(v as int, m as int),
{
    let vi = v as i128;
    let mi = m as i128;
    if vi >= 0 {
        vi - ((vi as u128) % (mi as u128)) as i128
    } else {
        let c = (((-vi) as u128) % (mi as u128)) as i128;
        proof {
            let q = (-(vi as int)) / (mi as int);
            vstd::arithmetic::div_mod::lemma_fundamental_div_mod(-(vi as int), mi as int);
            assert((-q) * (mi as int) == -((mi as int) * q)) by (nonlinear_arith);
            assert((-q - 1) * (mi as int) == -((mi as int) * q) - mi) by (nonlinear_arith);
            if c == 0 {
                vstd::arithmetic::div_mod::lemma_fundamental_div_mod_converse(
                    vi as int,
                    mi as int,
                    -q,
                    0,
                );
            } else {
                vstd::arithmetic::div_mod::lemma_fundamental_div_mod_converse(
                    vi as int,
                    mi as int,
                    -q - 1,
                    mi - c,
                );
            }
        }
        if c == 0 {
            vi
        } else {
            vi + c - mi
        }
    }
}

/// The fraction digits that `auto_precision` picks.
pub fn auto_precision_of(v: i64) -> (r: usize)
    ensures
        r == auto_precision(v as int),
        1 <= r <= 4,
{
    let u: u64 = if v < 0 {
        (-(v as i128)) as u64
    } else {
        v as u64
    };
    proof {
        assert(u as int % 1000 == 0 <==> v as int % 1000 == 0) by {
            if v < 0 {
                lemma_neg_divisible(v as int, 1000);
            }
        }
        assert(u as int % 100 == 0 <==> v as int % 100 == 0) by {
            if v < 0 {
                lemma_neg_divisible(v as int, 100);
            }
        }
        assert(u as int % 10 == 0 <==> v as int % 10 == 0) by {
            if v < 0 {
                lemma_neg_divisible(v as int, 10);
            }
        }
    }
    if u % 1000 == 0 {
        1
    } else if u % 100 == 0 {
        2
    } else if u % 10 == 0 {
        3
    } else {
        4
    }
}

proof fn lemma_neg_divisible(v: int, m: int)
    requires
        m > 0,
    ensures
        (-v) % m == 0 <==> v % m == 0,
{
    if v % m == 0 {
        vstd::arithmetic::div_mod::lemma_fundamental_div_mod(v, m);
        assert((-(v / m)) * m == -(m * (v / m))) by (nonlinear_arith);
        vstd::arithmetic::div_mod::lemma_fundamental_div_mod_converse(-v, m, -(v / m), 0);
    }
    if (-v) % m == 0 {
        vstd::arithmetic::div_mod::lemma_fundamental_div_mod(-v, m);
        assert((-((-v) / m)) * m == -(m * ((-v) / m))) by (nonlinear_arith);
        vstd::arithmetic::div_mod::lemma_fundamental_div_mod_converse(v, m, -((-v) / m), 0);
    }
}

/// Appends a `.` and the first `p` of the four digits of `f`.
fn push_fraction(out: &mut Vec<char>, f: u64, p: usize)
    requires
        f < 10_000,
        1 <= p <= 4,
    ensures
        final(out)@ == old(out)@ + (seq!['.'] + pad4(f as int).take(p as int)),
{
    let d0 = ((f / 1000) as u8 + 48) as char;
    let d1 = ((f / 100 % 10) as u8 + 48) as char;
    let d2 = ((f / 10 % 10) as u8 + 48) as char;
    let d3 = ((f % 10) as u8 + 48) as char;
    out.push('.');
    out.push(d0);
    if p > 1 {
        out.push(d1);
    }
    if p > 2 {
        out.push(d2);
    }
    if p > 3 {
        out.push(d3);
    }
    let ghost pd = pad4(f as int);
    assert(pd[0] == d0 && pd[1] == d1 && pd[2] == d2 && pd[3] == d3);
    assert(final(out)@ =~= old(out)@ + (seq!['.'] + pd.take(p as int)));
}

/// Appends `v` ticks as millimeters with `p` fraction digits, as `fmt_ticks` says.
pub fn push_ticks(out: &mut Vec<char>, v: i64, p: usize, sign_plus: bool)
    requires
        p <= 4,
    ensures
        final(out)@ == old(out)@ + fmt_ticks(v as int, p as nat, sign_plus),
{
    proof {
        lemma_pow10_bound((4 - p) as nat);
    }
    let m = Unit::potency(4 - p).multiply();
    let r = round_ticks(v, m);
    proof {
        lemma_round_bound(v as int, m as int);
    }
    let a: u128 = if r < 0 {
        (-r) as u128
    } else {
        r as u128
    };
    assert(abs(r as int) == a);
    let ghost start = out@;
    if r < 0 {
        out.push('-');
    } else if sign_plus {
        out.push('+');
    }
    let ghost signed = out@;
    let w = (a / 10_000) as u64;
    let f = (a % 10_000) as u64;
    push_digits(out, w);
    let ghost whole = out@;
    if p > 0 {
        push_fraction(out, f, p);
    }
    proof {
        let sign = if r < 0 {
            seq!['-']
        } else if sign_plus {
            seq!['+']
        } else {
            Seq::<char>::empty()
        };
        let fraction = if p > 0 {
            seq!['.'] + pad4(f as int).take(p as int)
        } else {
            Seq::<char>::empty()
        };
        assert(signed =~= start + sign);
        assert(out@ =~= start + sign + nat_digits(w as nat) + fraction);
        reveal(fmt_ticks);
    }
}

/// `v` as a plain integer; with `sign_plus` a value that is not negative starts with `+`.
pub open spec fn fmt_int(v: int, sign_plus: bool) -> Seq<char> {
    let sign = if v < 0 {
        seq!['-']
    } else if sign_plus {
        seq!['+']
    } else {
        Seq::<char>::empty()
    };
    sign + nat_digits(abs(v) as nat)
}

/// The fraction digits shown for `v` at the requested precision: at most four, and as few as
/// show `v` exactly where none is requested.
pub open spec fn shown_digits(v: int, precision: Option<usize>) -> nat {
    match precision {
        Some(p) => if p <= 4 {
            p as nat
        } else {
            4
        },
        None => auto_precision(v),
    }
}

/// `v` ticks as millimeters at the requested precision.
pub open spec fn display_ticks(v: int, precision: Option<usize>, sign_plus: bool) -> Seq<char> {
    fmt_ticks(v, shown_digits(v, precision), sign_plus)
}

/// `a / b` rounded toward zero, as `/` computes it on machine integers.
pub open spec fn trunc_div(a: int, b: int) -> int {
    let q = abs(a) / abs(b);
    if (a < 0) == (b < 0) {
        q
    } else {
        -q
    }
}

/// `a / b` rounded toward zero.
pub fn div_ticks(a: i64, b: i64) -> (r: i128)
    requires
        b != 0,
    ensures
        r == trunc_div(a as int, b as int),
{
    let ua: u128 = if a < 0 {
        (-(a as i128)) as u128
    } else {
        a as u128
    };
    let ub: u128 = if b < 0 {
        (-(b as i128)) as u128
    } else {
        b as u128
    };
    let q = (ua / ub) as i128;
    if (a < 0) == (b < 0) {
        q
    } else {
        -q
    }
}

/// Appends `v` as a plain integer, as `fmt_int` says.
pub fn push_int(out: &mut Vec<char>, v: i64, sign_plus: bool)
    ensures
        final(out)@ == old(out)@ + fmt_int(v as int, sign_plus),
{
    let ghost start = out@;
    if v < 0 {
        out.push('-');
    } else if sign_plus {
        out.push('+');
    }
    let a: u64 = if v < 0 {
        (-(v as i128)) as u64
    } else {
        v as u64
    };
    push_digits(out, a);
    assert(final(out)@ =~= old(out)@ + fmt_int(v as int, sign_plus));
}

/// Appends `v` ticks as millimeters at the requested precision, as `display_ticks` says.
pub fn push_display(out: &mut Vec<char>, v: i64, precision: Option<usize>, sign_plus: bool)
    ensures
        final(out)@ == old(out)@ + display_ticks(v as int, precision, sign_plus),
{
    let p = match precision {
        Some(p) => if p <= 4 {
            p
        } else {
            4
        },
        None => auto_precision_of(v),
    };
    push_ticks(out, v, p, sign_plus);
}

/// The first byte of the UTF-8 encoding of `c`.
pub fn utf8_lead_of(c: char) -> (r: u64)
    ensures
        r == utf8_lead(c),
{
    let u = c as u32;
    if u < 0x80 {
        u as u64
    } else if u < 0x800 {
        (0xc0 + u / 64) as u64
    } else if u < 0x10000 {
        (0xe0 + u / 4096) as u64
    } else {
        (0xf0 + u / 262144) as u64
    }
}

fn parse_error(msg: &Vec<char>) -> (r: ToleranceError)
    ensures
        r@ == (ErrorKind::Parse, msg@),
{
    ToleranceError::ParseError(string_of(msg))
}

fn bad_char_error(c: char, name: &str) -> (r: ToleranceError)
    ensures
        r@ == (ErrorKind::Parse, bad_char_msg(c, name@)),
{
    let mut m: Vec<char> = Vec::new();
    push_str(&mut m, "Found ascii #");
    push_digits(&mut m, utf8_lead_of(c));
    push_str(&mut m, " (a non-numerical literal) in input, can't parse input into a ");
    push_str(&mut m, name);
    push_str(&mut m, "!");
    assert(m@ =~= bad_char_msg(c, name@));
    parse_error(&m)
}

/// Reads the millimeter text `s` as ticks within `min..=max`, as `number_outcome` says.
pub fn parse_ticks(s: &str, name: &str, min: i64, max: i64) -> (r: Result<i64, ToleranceError>)
    ensures
        match number_outcome(s@, name@, min as int, max as int) {
            Ok(n) => r == Ok::<i64, ToleranceError>(n as i64),
            Err(e) => r is Err && r->Err_0@ == e,
        },
{
    let v = chars_of(s);
    let t = trim_chars(&v);
    if t.len() == 0 {
        let mut m: Vec<char> = Vec::new();
        push_str(&mut m, "Cannot parse an empty string into a ");
        push_str(&mut m, name);
        push_str(&mut m, "!");
        assert(m@ =~= empty_msg(name@));
        return Err(parse_error(&m));
    }
    let d = find_char(&t, '.');
    let base = slice_of(&t, 0, d);
    let frac = if d < t.len() {
        slice_of(&t, d + 1, t.len())
    } else {
        vec!['0']
    };
    proof {
        let (b, f) = split_number(t@);
        assert(base@ =~= b);
        assert(frac@ =~= f);
    }
    let signed = base.len() > 0 && (base[0] == '-' || base[0] == '+');
    let negative = base.len() > 0 && base[0] == '-';
    let body = if signed {
        slice_of(&base, 1, base.len())
    } else {
        slice_of(&base, 0, base.len())
    };
    assert(body@ =~= unsigned_part(base@));
    if body.len() == 0 && d == t.len() {
        let mut m: Vec<char> = Vec::new();
        push_str(&mut m, "Not a valid Number: '");
        m.extend_from_slice(t.as_slice());
        push_str(&mut m, "'");
        assert(m@ =~= not_number_msg(t@));
        return Err(parse_error(&m));
    }
    let mut f4: Vec<char> = Vec::new();
    let mut i: usize = 0;
    while i < 4
        invariant
            i <= 4,
            f4@ =~= fraction4(frac@).take(i as int),
        decreases 4 - i,
    {
        if i < frac.len() {
            f4.push(frac[i]);
        } else {
            f4.push('0');
        }
        i = i + 1;
    }
    assert(f4@ =~= fraction4(frac@));
    let k = find_non_digit(&body);
    if k < body.len() {
        return Err(bad_char_error(body[k], name));
    }
    let k = find_non_digit(&frac);
    if k < frac.len() {
        return Err(bad_char_error(frac[k], name));
    }
    assert(all_digits(f4@)) by {
        assert forall|j: int| 0 <= j < f4@.len() implies #[trigger] is_digit(f4@[j]) by {
            if j < frac@.len() {
                assert(f4@[j] == frac@[j]);
            } else {
                assert(f4@[j] == '0');
            }
        }
    }
    proof {
        lemma_digits_nonneg(f4@);
        lemma_digits_prefix(f4@, 0);
        lemma_pad_bound(f4@);
    }
    let whole = digits_upto(&body, 1_000_000_000_000_000_000);
    let fraction = digits_upto(&f4, 9_999);
    match (whole, fraction) {
        (Some(w), Some(f)) => {
            let mag = w as i128 * 10_000 + f as i128;
            let n = if negative {
                -mag
            } else {
                mag
            };
            if min as i128 <= n && n <= max as i128 {
                return Ok(n as i64);
            }
        },
        _ => {},
    }
    let mut m: Vec<char> = Vec::new();
    push_str(&mut m, s);
    push_str(&mut m, " is to big for ");
    push_str(&mut m, name);
    assert(m@ =~= too_big_msg(s@, name@));
    Err(ToleranceError::Overflow(string_of(&m)))
}

/// Four digits stand for less than ten thousand.
proof fn lemma_pad_bound(s: Seq<char>)
    requires
        all_digits(s),
        s.len() == 4,
    ensures
        0 <= digits_value(s) <= 9_999,
{
    let s3 = s.drop_last();
    let s2 = s3.drop_last();
    let s1 = s2.drop_last();
    assert(s1.drop_last() =~= Seq::<char>::empty());
    assert(is_digit(s[0]) && is_digit(s[1]) && is_digit(s[2]) && is_digit(s[3]));
    assert(s1[0] == s[0] && s2[1] == s[1] && s3[2] == s[2]);
    assert(digits_value(Seq::<char>::empty()) == 0);
    assert(0 <= digits_value(s1) <= 9);
    assert(0 <= digits_value(s2) <= 99);
    assert(0 <= digits_value(s3) <= 999);
}

} // verus!
