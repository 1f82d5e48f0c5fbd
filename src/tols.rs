//! Parsing and formatting of tolerances, shared by every width.
use vstd::prelude::*;

use crate::error::{out_of_range_error, out_of_range_msg, ErrorKind, ToleranceError};
use crate::text::{chars_of, is_digit, is_space, is_space_char, push_str, string_of};
use crate::ticks::{
    abs, display_ticks, fmt_int, lemma_fmt_full, lemma_number_text, lemma_round_bound,
    lemma_round_one, number_outcome, parse_ticks, plain, push_display, push_int, round_ticks,
    round_to, shown_digits, sign_text, unsigned_text,
};
use crate::unit::{lemma_pow10_bound, lemma_pow10_monotone, pow10, Unit};

verus! {

/// An optional number as `{:?}` shows it.
pub open spec fn option_text(o: Option<i64>) -> Seq<char> {
    match o {
        Some(x) => "Some("@ + fmt_int(x as int, false) + ")"@,
        None => "None"@,
    }
}

/// Three optional numbers as `{:?}` shows them.
pub open spec fn parts_text(v: Option<i64>, p: Option<i64>, m: Option<i64>) -> Seq<char> {
    "("@ + option_text(v) + ", "@ + option_text(p) + ", "@ + option_text(m) + ")"@
}

/// What `(value, plus, minus)` in ticks gives as a tolerance, or the error that it gives: a value
/// alone has no deviations, a value and a plus deviation are symmetric, and a minus deviation
/// needs both before it.
pub open spec fn parts_outcome(
    v: Option<i64>,
    p: Option<i64>,
    m: Option<i64>,
    name: Seq<char>,
    vmin: int,
    vmax: int,
    dmin: int,
    dmax: int,
) -> Result<(int, int, int), (ErrorKind, Seq<char>)> {
    if v is None || (p is None && m is Some) {
        Err((ErrorKind::Parse, not_parsable_msg(name, parts_text(v, p, m))))
    } else {
        let value = v->Some_0 as int;
        let plus = if p is Some {
            p->Some_0 as int
        } else {
            0
        };
        let minus = if m is Some {
            m->Some_0 as int
        } else {
            -plus
        };
        if !(vmin <= value <= vmax && dmin <= plus <= dmax && dmin <= minus <= dmax) {
            Err((ErrorKind::Overflow, out_of_range_msg()))
        } else if plus < minus {
            Err((ErrorKind::Parse, not_parsable_msg(name, parts_text(v, p, m))))
        } else {
            Ok((value, plus, minus))
        }
    }
}

fn push_option(out: &mut Vec<char>, o: Option<i64>)
    ensures
        final(out)@ == old(out)@ + option_text(o),
{
    match o {
        Some(x) => {
            push_str(out, "Some(");
            push_int(out, x, false);
            push_str(out, ")");
        },
        None => push_str(out, "None"),
    }
    assert(final(out)@ =~= old(out)@ + option_text(o));
}

fn parts_error(name: &str, v: Option<i64>, p: Option<i64>, m: Option<i64>) -> (r: ToleranceError)
    ensures
        r@ == (ErrorKind::Parse, not_parsable_msg(name@, parts_text(v, p, m))),
{
    let mut out: Vec<char> = Vec::new();
    push_str(&mut out, name);
    push_str(&mut out, " not parsable from '(");
    push_option(&mut out, v);
    push_str(&mut out, ", ");
    push_option(&mut out, p);
    push_str(&mut out, ", ");
    push_option(&mut out, m);
    push_str(&mut out, ")'!");
    proof {
        reveal_strlit(" not parsable from '(");
        reveal_strlit(" not parsable from '");
        reveal_strlit(")'!");
        reveal_strlit("'!");
        reveal_strlit("(");
        reveal_strlit(")");
    }
    assert(out@ =~= not_parsable_msg(name@, parts_text(v, p, m)));
    ToleranceError::ParseError(string_of(&out))
}

/// The tolerance `(value, plus, minus)` in ticks, as `parts_outcome` says.
pub fn tolerance_from_parts(
    v: Option<i64>,
    p: Option<i64>,
    m: Option<i64>,
    name: &str,
    vmin: i64,
    vmax: i64,
    dmin: i64,
    dmax: i64,
) -> (r: Result<(i64, i64, i64), ToleranceError>)
    requires
        dmin > i64::MIN,
    ensures
        match parts_outcome(v, p, m, name@, vmin as int, vmax as int, dmin as int, dmax as int) {
            Ok((a, b, c)) => r == Ok::<(i64, i64, i64), ToleranceError>(
                (a as i64, b as i64, c as i64),
            ),
            Err(e) => r is Err && r->Err_0@ == e,
        },
{
    if v.is_none() || (p.is_none() && m.is_some()) {
        return Err(parts_error(name, v, p, m));
    }
    let value = v.unwrap();
    let plus: i64 = match p {
        Some(x) => x,
        None => 0,
    };
    if !(vmin <= value && value <= vmax && dmin <= plus && plus <= dmax) {
        return Err(out_of_range_error());
    }
    let minus: i64 = match m {
        Some(x) => x,
        None => -plus,
    };
    if !(dmin <= minus && minus <= dmax) {
        return Err(out_of_range_error());
    }
    if plus < minus {
        return Err(parts_error(name, v, p, m));
    }
    Ok((value, plus, minus))
}

/// The lexicographic order of the pairs `(a1, a2)` and `(b1, b2)`.
pub open spec fn pair_order(a1: int, a2: int, b1: int, b2: int) -> core::cmp::Ordering {
    if a1 < b1 || (a1 == b1 && a2 < b2) {
        core::cmp::Ordering::Less
    } else if a1 == b1 && a2 == b2 {
        core::cmp::Ordering::Equal
    } else {
        core::cmp::Ordering::Greater
    }
}

/// `s` with every occurrence of `pat`, taken from the left, replaced by `by`.
pub open spec fn replace_all(s: Seq<char>, pat: Seq<char>, by: char) -> Seq<char>
    decreases s.len(),
{
    if pat.len() == 0 || s.len() < pat.len() {
        s
    } else if s.take(pat.len() as int) == pat {
        seq![by] + replace_all(s.skip(pat.len() as int), pat, by)
    } else {
        seq![s[0]] + replace_all(s.drop_first(), pat, by)
    }
}

/// The words of `s` that are completed by white space or the end, after the word `cur`.
pub open spec fn words_after(s: Seq<char>, cur: Seq<char>) -> Seq<Seq<char>>
    decreases s.len(),
{
    let done = if cur.len() > 0 {
        seq![cur]
    } else {
        Seq::<Seq<char>>::empty()
    };
    if s.len() == 0 {
        done
    } else if is_space(s[0]) {
        done + words_after(s.drop_first(), Seq::<char>::empty())
    } else {
        words_after(s.drop_first(), cur.push(s[0]))
    }
}

/// The runs of `s` between white space, as `str::split_whitespace` yields them.
pub open spec fn words(s: Seq<char>) -> Seq<Seq<char>> {
    words_after(s, Seq::<char>::empty())
}

/// A tolerance text with its separators `+/-`, `+-`, `/` and `;` turned into blanks.
pub open spec fn normalize(s: Seq<char>) -> Seq<char> {
    replace_all(
        replace_all(replace_all(replace_all(s, "+/-"@, ' '), "+-"@, ' '), seq!['/'], ' '),
        seq![';'],
        ' ',
    )
}

pub open spec fn not_parsable_msg(name: Seq<char>, text: Seq<char>) -> Seq<char> {
    name + " not parsable from '"@ + text + "'!"@
}

pub open spec fn empty_tolerance_msg(name: Seq<char>) -> Seq<char> {
    "Can not parse an empty string into a "@ + name + "!"@
}

/// Whether the word `w` reads as a number.
pub open spec fn is_number(w: Seq<char>) -> bool {
    number_outcome(w, seq![], i64::MIN as int, i64::MAX as int) is Ok
}

/// The ticks that the word `w` reads as.
pub open spec fn number_of(w: Seq<char>) -> int {
    number_outcome(w, seq![], i64::MIN as int, i64::MAX as int)->Ok_0
}

/// What a tolerance text means as `(value, plus, minus)` in ticks, or the error that it gives.
///
/// The words of the text, after its separators are made blanks, are read as numbers: one word
/// is a value without deviations, two are a value and a symmetric deviation, three a value, the
/// plus and the minus deviation; a fourth word is an error. The value must lie
/// within `vmin..=vmax`, the deviations within `dmin..=dmax`, and `plus` must not be below
/// `minus`.
pub open spec fn tolerance_outcome(
    text: Seq<char>,
    name: Seq<char>,
    vmin: int,
    vmax: int,
    dmin: int,
    dmax: int,
) -> Result<(int, int, int), (ErrorKind, Seq<char>)> {
    let ws = words(normalize(text));
    if exists|i: int| 0 <= i < ws.len() && !is_number(#[trigger] ws[i]) {
        Err((ErrorKind::Parse, not_parsable_msg(name, text)))
    } else if ws.len() == 0 {
        Err((ErrorKind::Parse, empty_tolerance_msg(name)))
    } else if ws.len() > 3 {
        Err((ErrorKind::Parse, not_parsable_msg(name, text)))
    } else {
        let v = number_of(ws[0]);
        let p = if ws.len() > 1 {
            number_of(ws[1])
        } else {
            0
        };
        let m = if ws.len() > 2 {
            number_of(ws[2])
        } else {
            -p
        };
        if !(vmin <= v <= vmax && dmin <= p <= dmax && dmin <= m <= dmax) {
            Err((ErrorKind::Overflow, out_of_range_msg()))
        } else if p < m {
            Err((ErrorKind::Parse, not_parsable_msg(name, text)))
        } else {
            Ok((v, p, m))
        }
    }
}

/// The ticks to which the deviations are rounded before they are shown.
pub open spec fn deviation_unit(precision: Option<usize>) -> int {
    match precision {
        Some(q) => if q < 4 {
            pow10((4 - q) as nat)
        } else {
            1
        },
        None => 10,
    }
}

/// The text of the tolerance `(v, p, m)`: `value +/-plus` where the rounded deviations are
/// symmetric, else `value +plus/-minus`; `alternate` shows raw ticks and never the short form.
pub open spec fn tolerance_text(
    v: int,
    p: int,
    m: int,
    precision: Option<usize>,
    alternate: bool,
) -> Seq<char> {
    let u = deviation_unit(precision);
    shown_tolerance(v, round_to(p, u), round_to(m, u), precision, alternate)
}

/// The text of a tolerance whose deviations `pr` and `mr` are rounded already.
pub open spec fn shown_tolerance(
    v: int,
    pr: int,
    mr: int,
    precision: Option<usize>,
    alternate: bool,
) -> Seq<char> {
    if pr == -mr && !alternate && pr >= 0 {
        short_text(v, pr, precision)
    } else if alternate {
        raw_text(v, pr, mr)
    } else {
        long_text(v, pr, mr, precision)
    }
}

/// The sign that the minus deviation `mr` shows in front of itself, after a `/`.
pub open spec fn minus_sign(mr: int) -> Seq<char> {
    if mr > 0 {
        seq!['/', '+']
    } else if mr == 0 {
        seq!['/', '-']
    } else {
        seq!['/']
    }
}

/// `value +/-plus`.
pub open spec fn short_text(v: int, pr: int, precision: Option<usize>) -> Seq<char> {
    display_ticks(v, precision, false) + " +/-"@ + display_ticks(
        pr,
        precision,
        false,
    )
}

/// `value +plus/-minus` in raw ticks.
pub open spec fn raw_text(v: int, pr: int, mr: int) -> Seq<char> {
    fmt_int(v, false) + seq![' '] + fmt_int(pr, true) + minus_sign(mr) + fmt_int(mr, false)
}

/// `value +plus/-minus`.
pub open spec fn long_text(v: int, pr: int, mr: int, precision: Option<usize>) -> Seq<char> {
    display_ticks(v, precision, false) + seq![' '] + display_ticks(pr, precision, true) + minus_sign(
        mr,
    ) + display_ticks(mr, precision, false)
}

/// The debugging text of the tolerance `(v, p, m)` of the type `name`.
pub open spec fn tolerance_debug(
    name: Seq<char>,
    v: int,
    p: int,
    m: int,
    precision: Option<usize>,
) -> Seq<char> {
    name + seq!['('] + display_ticks(v, precision, false) + seq![' '] + display_ticks(
        p,
        precision,
        true,
    ) + seq![' '] + display_ticks(m, precision, true) + seq![')']
}

/// The ticks to which the deviations are rounded, as `deviation_unit` says.
fn deviation_unit_of(precision: Option<usize>) -> (r: i64)
    ensures
        r == deviation_unit(precision),
        1 <= r <= 10_000,
{
    proof {
        lemma_pow10_bound(4);
        assert(pow10(4) == 10_000) by {
            reveal_with_fuel(pow10, 5);
        }
    }
    match precision {
        Some(q) => if q < 4 {
            proof {
                lemma_pow10_monotone((4 - q) as nat, 4);
            }
            Unit::potency(4 - q).multiply()
        } else {
            1
        },
        None => {
            assert(pow10(1) == 10) by {
                reveal_with_fuel(pow10, 2);
            }
            10
        },
    }
}

/// Appends `/` and the sign that the minus deviation `mr` shows, as `minus_sign` says.
fn push_minus_sign(out: &mut Vec<char>, mr: i64)
    ensures
        final(out)@ == old(out)@ + minus_sign(mr as int),
{
    out.push('/');
    if mr > 0 {
        out.push('+');
    } else if mr == 0 {
        out.push('-');
    }
    assert(final(out)@ =~= old(out)@ + minus_sign(mr as int));
}

/// Appends the text of the tolerance `(v, p, m)`, as `tolerance_text` says.
pub fn push_tolerance(
    out: &mut Vec<char>,
    v: i64,
    p: i64,
    m: i64,
    precision: Option<usize>,
    alternate: bool,
)
    requires
        abs(p as int) <= i32::MAX + 1,
        abs(m as int) <= i32::MAX + 1,
    ensures
        final(out)@ == old(out)@ + tolerance_text(v as int, p as int, m as int, precision, alternate),
{
    let unit = deviation_unit_of(precision);
    proof {
        lemma_round_bound(p as int, unit as int);
        lemma_round_bound(m as int, unit as int);
    }
    let pr = round_ticks(p, unit) as i64;
    let mr = round_ticks(m, unit) as i64;
    push_shown(out, v, pr, mr, precision, alternate);
}

/// Appends the text of a tolerance with rounded deviations, as `shown_tolerance` says.
fn push_shown(
    out: &mut Vec<char>,
    v: i64,
    pr: i64,
    mr: i64,
    precision: Option<usize>,
    alternate: bool,
)
    requires
        mr > i64::MIN,
    ensures
        final(out)@ == old(out)@ + shown_tolerance(
            v as int,
            pr as int,
            mr as int,
            precision,
            alternate,
        ),
{
    let ghost start = out@;
    if pr == -mr && !alternate && pr >= 0 {
        push_display(out, v, precision, false);
        push_str(out, " +/-");
        push_display(out, pr, precision, false);
        assert(final(out)@ =~= start + short_text(v as int, pr as int, precision));
    } else if alternate {
        push_int(out, v, false);
        out.push(' ');
        push_int(out, pr, true);
        push_minus_sign(out, mr);
        push_int(out, mr, false);
        assert(final(out)@ =~= start + raw_text(v as int, pr as int, mr as int));
    } else {
        push_display(out, v, precision, false);
        out.push(' ');
        push_display(out, pr, precision, true);
        push_minus_sign(out, mr);
        push_display(out, mr, precision, false);
        assert(final(out)@ =~= start + long_text(v as int, pr as int, mr as int, precision));
    }
}

/// Appends the debugging text of the tolerance `(v, p, m)`, as `tolerance_debug` says.
pub fn push_tolerance_debug(
    out: &mut Vec<char>,
    name: &str,
    v: i64,
    p: i64,
    m: i64,
    precision: Option<usize>,
)
    ensures
        final(out)@ == old(out)@ + tolerance_debug(name@, v as int, p as int, m as int, precision),
{
    push_str(out, name);
    out.push('(');
    push_display(out, v, precision, false);
    out.push(' ');
    push_display(out, p, precision, true);
    out.push(' ');
    push_display(out, m, precision, true);
    out.push(')');
    assert(final(out)@ =~= old(out)@ + tolerance_debug(
        name@,
        v as int,
        p as int,
        m as int,
        precision,
    ));
}

/// Whether every `+` in `s` is followed by a digit.
pub open spec fn plus_then_digit(s: Seq<char>) -> bool {
    forall|i: int| 0 <= i < s.len() && #[trigger] s[i] == '+' ==> i + 1 < s.len() && is_digit(s[i + 1])
}

/// Whether no character of `s` is `c`.
pub open spec fn lacks(s: Seq<char>, c: char) -> bool {
    forall|i: int| 0 <= i < s.len() ==> #[trigger] s[i] != c
}

/// Whether no character of `s` is white space.
pub open spec fn no_space(s: Seq<char>) -> bool {
    forall|i: int| 0 <= i < s.len() ==> !is_space(#[trigger] s[i])
}

proof fn lemma_plus_concat(x: Seq<char>, y: Seq<char>)
    requires
        plus_then_digit(x),
        plus_then_digit(y),
    ensures
        plus_then_digit(x + y),
{
    assert forall|i: int| 0 <= i < (x + y).len() && #[trigger] (x + y)[i] == '+' implies i + 1 < (
    x + y).len() && is_digit((x + y)[i + 1]) by {
        if i < x.len() {
            assert(x[i] == '+');
            assert((x + y)[i + 1] == x[i + 1]);
        } else {
            assert(y[i - x.len()] == '+');
            assert((x + y)[i + 1] == y[i + 1 - x.len()]);
        }
    }
}

/// A text without the first character of a pattern holds no occurrence of it.
proof fn lemma_replace_skip(x: Seq<char>, y: Seq<char>, pat: Seq<char>, by: char)
    requires
        pat.len() > 0,
        lacks(x, pat[0]),
    ensures
        replace_all(x + y, pat, by) == x + replace_all(y, pat, by),
    decreases x.len(),
{
    if x.len() == 0 {
        assert(x + y =~= y);
    } else {
        let s = x + y;
        if s.len() >= pat.len() {
            assert(s.take(pat.len() as int)[0] == x[0]);
            assert(s.take(pat.len() as int) != pat);
            assert(s.drop_first() =~= x.drop_first() + y);
            lemma_replace_skip(x.drop_first(), y, pat, by);
            assert(seq![s[0]] + (x.drop_first() + replace_all(y, pat, by)) =~= x + replace_all(
                y,
                pat,
                by,
            ));
        } else {
            assert(y.len() < pat.len());
        }
    }
}

/// A text whose `+` are all followed by digits holds no `+/-` or `+-`.
proof fn lemma_replace_absent(s: Seq<char>, pat: Seq<char>, by: char)
    requires
        pat.len() >= 2,
        pat[0] == '+',
        !is_digit(pat[1]),
        plus_then_digit(s),
    ensures
        replace_all(s, pat, by) == s,
    decreases s.len(),
{
    if s.len() >= pat.len() {
        assert(s.take(pat.len() as int) != pat) by {
            if s[0] == '+' {
                assert(s.take(pat.len() as int)[1] == s[1]);
            } else {
                assert(s.take(pat.len() as int)[0] == s[0]);
            }
        }
        assert forall|i: int|
            0 <= i < s.drop_first().len() && #[trigger] s.drop_first()[i] == '+' implies i + 1
            < s.drop_first().len() && is_digit(s.drop_first()[i + 1]) by {
            assert(s[i + 1] == '+');
        }
        lemma_replace_absent(s.drop_first(), pat, by);
        assert(seq![s[0]] + s.drop_first() =~= s);
    }
}

/// Replacing a single character replaces each of its occurrences.
proof fn lemma_replace_char(s: Seq<char>, c: char, by: char)
    ensures
        replace_all(s, seq![c], by) == s.map_values(|x: char| if x == c { by } else { x }),
    decreases s.len(),
{
    if s.len() > 0 {
        lemma_replace_char(s.drop_first(), c, by);
        if s[0] == c {
            assert(s.take(1) =~= seq![c]);
            assert(s.skip(1) =~= s.drop_first());
        } else {
            assert(s.take(1)[0] != c);
        }
        assert(replace_all(s, seq![c], by) =~= s.map_values(|x: char| if x == c { by } else { x }));
    } else {
        assert(s.map_values(|x: char| if x == c { by } else { x }) =~= s);
    }
}

/// A word without white space joins the word that is being read.
proof fn lemma_words_word(x: Seq<char>, rest: Seq<char>, cur: Seq<char>)
    requires
        no_space(x),
    ensures
        words_after(x + rest, cur) == words_after(rest, cur + x),
    decreases x.len(),
{
    if x.len() == 0 {
        assert(x + rest =~= rest);
        assert(cur + x =~= cur);
    } else {
        assert(!is_space(x[0]));
        assert((x + rest).drop_first() =~= x.drop_first() + rest);
        assert(cur.push(x[0]) + x.drop_first() =~= cur + x);
        lemma_words_word(x.drop_first(), rest, cur.push(x[0]));
    }
}

/// A blank ends the word that is being read.
proof fn lemma_words_blank(rest: Seq<char>, cur: Seq<char>)
    ensures
        words_after(seq![' '] + rest, cur) == (if cur.len() > 0 {
            seq![cur]
        } else {
            Seq::<Seq<char>>::empty()
        }) + words_after(rest, Seq::<char>::empty()),
{
    assert((seq![' '] + rest).drop_first() =~= rest);
    assert(is_space(' '));
}

/// The words of `a b` and of `a  b`.
proof fn lemma_two_words(a: Seq<char>, b: Seq<char>, blanks: Seq<char>)
    requires
        no_space(a),
        no_space(b),
        a.len() > 0,
        b.len() > 0,
        blanks == seq![' '] || blanks == seq![' ', ' '],
    ensures
        words(a + blanks + b) == seq![a, b],
{
    let e = Seq::<char>::empty();
    assert(a + blanks + b =~= a + (blanks + b));
    lemma_words_word(a, blanks + b, e);
    assert(e + a =~= a);
    if blanks == seq![' '] {
        assert(blanks + b =~= seq![' '] + b);
        lemma_words_blank(b, a);
    } else {
        assert(blanks + b =~= seq![' '] + (seq![' '] + b));
        lemma_words_blank(seq![' '] + b, a);
        lemma_words_blank(b, e);
        assert(Seq::<Seq<char>>::empty() + words_after(b, e) =~= words_after(b, e));
    }
    assert(b =~= b + e);
    lemma_words_word(b, e, e);
    assert(e + b =~= b);
    assert(seq![a] + seq![b] =~= seq![a, b]);
}

/// The words of `a b c`.
proof fn lemma_three_words(a: Seq<char>, b: Seq<char>, c: Seq<char>)
    requires
        no_space(a),
        no_space(b),
        no_space(c),
        a.len() > 0,
        b.len() > 0,
        c.len() > 0,
    ensures
        words(a + seq![' '] + b + seq![' '] + c) == seq![a, b, c],
{
    let e = Seq::<char>::empty();
    assert(a + seq![' '] + b + seq![' '] + c =~= a + (seq![' '] + (b + (seq![' '] + c))));
    lemma_words_word(a, seq![' '] + (b + (seq![' '] + c)), e);
    assert(e + a =~= a);
    lemma_words_blank(b + (seq![' '] + c), a);
    lemma_words_word(b, seq![' '] + c, e);
    assert(e + b =~= b);
    lemma_words_blank(c, b);
    assert(c =~= c + e);
    lemma_words_word(c, e, e);
    assert(e + c =~= c);
    assert(seq![a] + (seq![b] + seq![c]) =~= seq![a, b, c]);
}

/// What a plain digit text lacks.
proof fn lemma_plain_facts(u: Seq<char>)
    requires
        plain(u),
    ensures
        no_space(u),
        lacks(u, '+'),
        lacks(u, '-'),
        lacks(u, '/'),
        lacks(u, ';'),
        lacks(u, ' '),
        plus_then_digit(u),
{
    assert forall|i: int| 0 <= i < u.len() implies !is_space(#[trigger] u[i]) by {
        assert(is_digit(u[i]) || u[i] == '.');
    }
    assert forall|i: int| 0 <= i < u.len() implies #[trigger] u[i] != '+' && u[i] != '-' && u[i]
        != '/' && u[i] != ';' && u[i] != ' ' by {
        assert(is_digit(u[i]) || u[i] == '.');
    }
}

/// A sign, if any, and then a plain digit text that starts with a digit.
proof fn lemma_signed_facts(sign: Seq<char>, u: Seq<char>)
    requires
        plain(u),
        u.len() > 0,
        is_digit(u[0]),
        sign.len() == 0 || sign == seq!['+'] || sign == seq!['-'],
    ensures
        no_space(sign + u),
        lacks(sign + u, '/'),
        lacks(sign + u, ';'),
        plus_then_digit(sign + u),
        sign + u != Seq::<char>::empty(),
{
    lemma_plain_facts(u);
    let t = sign + u;
    assert forall|i: int| 0 <= i < t.len() implies !is_space(#[trigger] t[i]) && t[i] != '/' && t[i]
        != ';' by {
        if i >= sign.len() {
            assert(t[i] == u[i - sign.len()]);
        }
    }
    assert forall|i: int| 0 <= i < t.len() && #[trigger] t[i] == '+' implies i + 1 < t.len()
        && is_digit(t[i + 1]) by {
        if i >= sign.len() {
            assert(t[i] == u[i - sign.len()]);
        } else {
            assert(t[i + 1] == u[0]);
        }
    }
    assert(t.len() > 0);
}

/// The separators of a symmetric tolerance text become two blanks.
proof fn lemma_short_normalize(vt: Seq<char>, up: Seq<char>)
    requires
        lacks(vt, '+'),
        lacks(vt, '/'),
        lacks(vt, ';'),
        lacks(up, '+'),
        lacks(up, '/'),
        lacks(up, ';'),
    ensures
        normalize(vt + " +/-"@ + up) == vt + seq![' ', ' '] + up,
{
    let e = Seq::<char>::empty();
    reveal_strlit(" +/-");
    reveal_strlit("+/-");
    reveal_strlit("+-");
    let pat1 = "+/-"@;
    let pat2 = "+-"@;
    let text = vt + " +/-"@ + up;
    assert(text =~= (vt + seq![' ']) + (pat1 + up));
    assert(lacks(vt + seq![' '], '+')) by {
        assert forall|i: int| 0 <= i < (vt + seq![' ']).len() implies #[trigger] (vt + seq![
            ' ',
        ])[i] != '+' by {
            if i < vt.len() {
                assert((vt + seq![' '])[i] == vt[i]);
            }
        }
    }
    lemma_replace_skip(vt + seq![' '], pat1 + up, pat1, ' ');
    assert((pat1 + up).take(3) =~= pat1);
    assert((pat1 + up).skip(3) =~= up);
    lemma_replace_skip(up, e, pat1, ' ');
    assert(up + e =~= up);
    let n1 = vt + seq![' ', ' '] + up;
    assert(replace_all(text, pat1, ' ') =~= n1);
    assert(lacks(n1, '+') && lacks(n1, '/') && lacks(n1, ';')) by {
        assert forall|i: int| 0 <= i < n1.len() implies #[trigger] n1[i] != '+' && n1[i] != '/'
            && n1[i] != ';' by {
            if i < vt.len() {
                assert(n1[i] == vt[i]);
            } else if i >= vt.len() + 2 {
                assert(n1[i] == up[i - vt.len() - 2]);
            }
        }
    }
    lemma_replace_skip(n1, e, pat2, ' ');
    assert(n1 + e =~= n1);
    lemma_replace_char(n1, '/', ' ');
    assert(n1.map_values(|x: char| if x == '/' { ' ' } else { x }) =~= n1);
    lemma_replace_char(n1, ';', ' ');
    assert(n1.map_values(|x: char| if x == ';' { ' ' } else { x }) =~= n1);
}

/// The words of a symmetric tolerance text, and what they read as.
#[verifier::rlimit(100)]
proof fn lemma_short_words(v: int, p: int, m: int)
    requires
        i64::MIN <= v <= i64::MAX,
        i64::MIN <= m <= p <= i64::MAX,
        p == -m && p >= 0,
    ensures
        ({
            let ws = words(normalize(tolerance_text(v, p, m, Some(4usize), false)));
            &&& ws.len() == 2
            &&& is_number(ws[0]) && number_of(ws[0]) == v
            &&& is_number(ws[1]) && number_of(ws[1]) == p
        }),
{
    let four = Some(4usize);
    let e = Seq::<char>::empty();
    let lo = i64::MIN as int;
    let hi = i64::MAX as int;
    lemma_round_one(p);
    lemma_round_one(m);
    lemma_fmt_full(v, false);
    lemma_fmt_full(p, false);
    let uv = unsigned_text(abs(v) as nat);
    let up = unsigned_text(abs(p) as nat);
    let vt = sign_text(v, false) + uv;
    lemma_signed_facts(sign_text(v, false), uv);
    lemma_plain_facts(uv);
    lemma_plain_facts(up);
    lemma_number_text(sign_text(v, false), abs(v) as nat, e, lo, hi);
    let text = tolerance_text(v, p, m, four, false);
    let ws = words(normalize(text));
    assert(deviation_unit(four) == 1);
    assert(shown_digits(v, four) == 4);
    assert(shown_digits(p, four) == 4);
    assert(display_ticks(v, four, false) == vt);
    assert(sign_text(p, false) =~= e);
    assert(display_ticks(p, four, false) =~= up);
    assert(text == short_text(v, p, four));
    assert(text =~= vt + " +/-"@ + up);
    assert(lacks(vt, '+')) by {
        assert forall|i: int| 0 <= i < vt.len() implies #[trigger] vt[i] != '+' by {
            if i >= sign_text(v, false).len() {
                assert(vt[i] == uv[i - sign_text(v, false).len()]);
            }
        }
    }
    lemma_short_normalize(vt, up);
    let n1 = vt + seq![' ', ' '] + up;
    assert(normalize(text) == n1);
    lemma_two_words(vt, up, seq![' ', ' ']);
    assert(ws == seq![vt, up]);
    lemma_number_text(e, abs(p) as nat, e, lo, hi);
    assert(e + up =~= up);
    assert(is_number(ws[0]) && is_number(ws[1]));
    assert(!exists|i: int| 0 <= i < ws.len() && !is_number(#[trigger] ws[i]));
}

/// The words of an asymmetric tolerance text, and what they read as.
#[verifier::rlimit(100)]
proof fn lemma_long_words(v: int, p: int, m: int)
    requires
        i64::MIN <= v <= i64::MAX,
        i64::MIN <= m <= p <= i64::MAX,
        !(p == -m && p >= 0),
    ensures
        ({
            let ws = words(normalize(tolerance_text(v, p, m, Some(4usize), false)));
            &&& ws.len() == 3
            &&& is_number(ws[0]) && number_of(ws[0]) == v
            &&& is_number(ws[1]) && number_of(ws[1]) == p
            &&& is_number(ws[2]) && number_of(ws[2]) == m
        }),
{
    let four = Some(4usize);
    let e = Seq::<char>::empty();
    let lo = i64::MIN as int;
    let hi = i64::MAX as int;
    lemma_round_one(p);
    lemma_round_one(m);
    lemma_fmt_full(v, false);
    lemma_fmt_full(p, false);
    lemma_fmt_full(p, true);
    lemma_fmt_full(m, false);
    let uv = unsigned_text(abs(v) as nat);
    let up = unsigned_text(abs(p) as nat);
    let um = unsigned_text(abs(m) as nat);
    let vt = sign_text(v, false) + uv;
    lemma_signed_facts(sign_text(v, false), uv);
    lemma_plain_facts(uv);
    lemma_plain_facts(up);
    lemma_number_text(sign_text(v, false), abs(v) as nat, e, lo, hi);
    let text = tolerance_text(v, p, m, four, false);
    reveal_strlit(" +/-");
    reveal_strlit("+/-");
    reveal_strlit("+-");
    let pat1 = "+/-"@;
    let pat2 = "+-"@;
    let ws = words(normalize(text));
    let pt = sign_text(p, true) + up;
    let ms = minus_sign(m);
    let mt = sign_text(m, false) + um;
    lemma_plain_facts(um);
    lemma_signed_facts(sign_text(p, true), up);
    lemma_signed_facts(sign_text(m, false), um);
    assert(deviation_unit(four) == 1);
    assert(text == long_text(v, p, m, four));
    assert(text =~= vt + seq![' '] + pt + ms + mt);
    let tail = ms.drop_first() + mt;
    let front = vt + seq![' '] + pt;
    assert(plus_then_digit(ms + mt)) by {
        assert forall|i: int| 0 <= i < (ms + mt).len() && #[trigger] (ms + mt)[i] == '+' implies i
            + 1 < (ms + mt).len() && is_digit((ms + mt)[i + 1]) by {
            if i >= ms.len() {
                assert((ms + mt)[i] == mt[i - ms.len()]);
                assert((ms + mt)[i + 1] == mt[i + 1 - ms.len()]);
            } else {
                assert(i == 1 && m > 0);
                assert((ms + mt)[2] == um[0]);
            }
        }
    }
    assert(plus_then_digit(vt + seq![' '])) by {
        assert forall|i: int| 0 <= i < (vt + seq![' ']).len() && #[trigger] (vt + seq![' '])[i]
            == '+' implies i + 1 < (vt + seq![' ']).len() && is_digit((vt + seq![' '])[i + 1]) by {
            assert(i < vt.len());
            assert((vt + seq![' '])[i] == vt[i]);
        }
    }
    lemma_plus_concat(vt + seq![' '], pt);
    lemma_plus_concat(front, ms + mt);
    assert(front + (ms + mt) =~= text);
    lemma_replace_absent(text, pat1, ' ');
    lemma_replace_absent(text, pat2, ' ');
    let n3 = front + seq![' '] + tail;
    assert(lacks(front, '/') && lacks(front, ';')) by {
        assert forall|i: int| 0 <= i < front.len() implies #[trigger] front[i] != '/' && front[i]
            != ';' by {
            if i < vt.len() {
                assert(front[i] == vt[i]);
            } else if i > vt.len() {
                assert(front[i] == pt[i - vt.len() - 1]);
            }
        }
    }
    assert(lacks(tail, '/') && lacks(tail, ';')) by {
        assert forall|i: int| 0 <= i < tail.len() implies #[trigger] tail[i] != '/' && tail[i]
            != ';' by {
            if i >= ms.drop_first().len() {
                assert(tail[i] == mt[i - ms.drop_first().len()]);
            }
        }
    }
    lemma_replace_char(text, '/', ' ');
    assert(text.map_values(|x: char| if x == '/' { ' ' } else { x }) =~= n3) by {
        assert(text =~= front + (seq!['/'] + tail));
    }
    lemma_replace_char(n3, ';', ' ');
    assert(n3.map_values(|x: char| if x == ';' { ' ' } else { x }) =~= n3);
    assert(normalize(text) == n3);
    assert(no_space(tail) && tail.len() > 0) by {
        assert forall|i: int| 0 <= i < tail.len() implies !is_space(#[trigger] tail[i]) by {
            if i >= ms.drop_first().len() {
                assert(tail[i] == mt[i - ms.drop_first().len()]);
            }
        }
    }
    lemma_three_words(vt, pt, tail);
    assert(ws == seq![vt, pt, tail]);
    lemma_number_text(sign_text(p, true), abs(p) as nat, e, lo, hi);
    if m > 0 {
        assert(tail =~= seq!['+'] + um);
        lemma_number_text(seq!['+'], abs(m) as nat, e, lo, hi);
    } else if m == 0 {
        assert(tail =~= seq!['-'] + um);
        lemma_number_text(seq!['-'], abs(m) as nat, e, lo, hi);
    } else {
        assert(tail =~= seq!['-'] + um);
        lemma_number_text(seq!['-'], abs(m) as nat, e, lo, hi);
    }
    assert(is_number(ws[0]) && is_number(ws[1]) && is_number(ws[2]));
    assert(!exists|i: int| 0 <= i < ws.len() && !is_number(#[trigger] ws[i]));
}

/// A tolerance shown with all four fraction digits reads back as itself.
pub proof fn lemma_tolerance_round_trip(
    v: int,
    p: int,
    m: int,
    name: Seq<char>,
    vmin: int,
    vmax: int,
    dmin: int,
    dmax: int,
)
    requires
        i64::MIN <= vmin <= v <= vmax <= i64::MAX,
        i64::MIN <= dmin <= m <= p <= dmax <= i64::MAX,
    ensures
        tolerance_outcome(tolerance_text(v, p, m, Some(4usize), false), name, vmin, vmax, dmin, dmax)
            == Ok::<(int, int, int), (ErrorKind, Seq<char>)>((v, p, m)),
{
    let ws = words(normalize(tolerance_text(v, p, m, Some(4usize), false)));
    if p == -m && p >= 0 {
        lemma_short_words(v, p, m);
    } else {
        lemma_long_words(v, p, m);
    }
    assert(!exists|i: int| 0 <= i < ws.len() && !is_number(#[trigger] ws[i]));
}

/// `s` with every occurrence of `pat` replaced by `by`, as `replace_all` says.
pub fn replace_chars(s: &Vec<char>, pat: &str, by: char) -> (r: Vec<char>)
    requires
        pat@.len() > 0,
    ensures
        r@ == replace_all(s@, pat@, by),
{
    let p = chars_of(pat);
    let n = s.len();
    let k = p.len();
    let mut out: Vec<char> = Vec::new();
    let mut i: usize = 0;
    assert(s@.skip(0) =~= s@);
    assert(out@ + replace_all(s@, p@, by) =~= replace_all(s@, p@, by));
    while i < n
        invariant
            n == s@.len(),
            k == p@.len() == pat@.len() > 0,
            i <= n,
            out@ + replace_all(s@.skip(i as int), p@, by) == replace_all(s@, p@, by),
        decreases n - i,
    {
        let ghost rest = s@.skip(i as int);
        if k <= n - i {
            let mut j: usize = 0;
            while j < k && s[i + j] == p[j]
                invariant
                    n == s@.len(),
                    k == p@.len(),
                    i + k <= n,
                    j <= k,
                    forall|q: int| 0 <= q < j ==> s@[i + q] == p@[q],
                decreases k - j,
            {
                j = j + 1;
            }
            if j == k {
                assert(rest.take(k as int) =~= p@);
                assert(rest.skip(k as int) =~= s@.skip(i + k));
                out.push(by);
                i = i + k;
                continue;
            }
            assert(rest.take(k as int)[j as int] != p@[j as int]);
        }
        assert(rest.drop_first() =~= s@.skip(i + 1));
        assert(out@.push(s@[i as int]) + replace_all(s@.skip(i + 1), p@, by) =~= out@ + (seq![
            rest[0],
        ] + replace_all(rest.drop_first(), p@, by)));
        out.push(s[i]);
        i = i + 1;
    }
    assert(s@.skip(n as int) =~= Seq::<char>::empty());
    assert(out@ + Seq::<char>::empty() =~= out@);
    out
}

/// The words of `s`, as `words` says.
pub fn split_words(s: &Vec<char>) -> (r: Vec<Vec<char>>)
    ensures
        r@.len() == words(s@).len(),
        forall|i: int| 0 <= i < r@.len() ==> (#[trigger] r@[i])@ == words(s@)[i],
{
    let n = s.len();
    let mut out: Vec<Vec<char>> = Vec::new();
    let ghost views: Seq<Seq<char>> = Seq::empty();
    let mut cur: Vec<char> = Vec::new();
    let mut i: usize = 0;
    assert(s@.skip(0) =~= s@);
    assert(views + words(s@) =~= words(s@));
    assert(cur@ =~= Seq::<char>::empty());
    while i < n
        invariant
            n == s@.len(),
            i <= n,
            out@.len() == views.len(),
            forall|q: int| 0 <= q < out@.len() ==> (#[trigger] out@[q])@ == views[q],
            views + words_after(s@.skip(i as int), cur@) == words(s@),
        decreases n - i,
    {
        let ghost rest = s@.skip(i as int);
        assert(rest.drop_first() =~= s@.skip(i + 1));
        if is_space_char(s[i]) {
            if cur.len() > 0 {
                proof {
                    views = views.push(cur@);
                }
                out.push(cur);
                assert(views + words_after(s@.skip(i + 1), Seq::<char>::empty()) =~= views.drop_last()
                    + (seq![views.last()] + words_after(rest.drop_first(), Seq::<char>::empty())));
            } else {
                assert(views + words_after(s@.skip(i + 1), Seq::<char>::empty()) =~= views + (
                Seq::<Seq<char>>::empty() + words_after(rest.drop_first(), Seq::<char>::empty())));
            }
            cur = Vec::new();
        } else {
            cur.push(s[i]);
        }
        i = i + 1;
    }
    assert(s@.skip(n as int) =~= Seq::<char>::empty());
    if cur.len() > 0 {
        proof {
            views = views.push(cur@);
        }
        out.push(cur);
        assert(views =~= words(s@));
    } else {
        assert(views + Seq::<Seq<char>>::empty() =~= views);
    }
    out
}

/// Reads a tolerance text as `(value, plus, minus)` in ticks, as `tolerance_outcome` says.
pub fn parse_tolerance(
    text: &str,
    name: &str,
    vmin: i64,
    vmax: i64,
    dmin: i64,
    dmax: i64,
) -> (r: Result<(i64, i64, i64), ToleranceError>)
    requires
        dmin > i64::MIN,
    ensures
        match tolerance_outcome(
            text@,
            name@,
            vmin as int,
            vmax as int,
            dmin as int,
            dmax as int,
        ) {
            Ok((v, p, m)) => r == Ok::<(i64, i64, i64), ToleranceError>(
                (v as i64, p as i64, m as i64),
            ),
            Err(e) => r is Err && r->Err_0@ == e,
        },
{
    let chars = chars_of(text);
    proof {
        reveal_strlit("+/-");
        reveal_strlit("+-");
        reveal_strlit("/");
        reveal_strlit(";");
        reveal_strlit("");
        assert(""@ =~= Seq::<char>::empty());
    }
    let a = replace_chars(&chars, "+/-", ' ');
    let b = replace_chars(&a, "+-", ' ');
    let c = replace_chars(&b, "/", ' ');
    let d = replace_chars(&c, ";", ' ');
    proof {
        assert("/"@ =~= seq!['/']);
        assert(";"@ =~= seq![';']);
        assert(d@ == normalize(text@));
    }
    let ws = split_words(&d);
    let ghost wv = words(normalize(text@));
    let mut values: Vec<i64> = Vec::new();
    let mut i: usize = 0;
    while i < ws.len()
        invariant
            wv == words(normalize(text@)),
            ws@.len() == wv.len(),
            forall|q: int| 0 <= q < ws@.len() ==> (#[trigger] ws@[q])@ == wv[q],
            i <= ws@.len(),
            values@.len() == i,
            forall|q: int| 0 <= q < i ==> is_number(#[trigger] wv[q]) && values@[q] == number_of(wv[q]),
        decreases ws@.len() - i,
    {
        let w = string_of(&ws[i]);
        assert(ws@[i as int]@ == wv[i as int]);
        match parse_ticks(w.as_str(), "", i64::MIN, i64::MAX) {
            Ok(n) => {
                proof {
                    assert(is_number(wv[i as int]));
                }
                values.push(n);
            },
            Err(_) => {
                let mut m: Vec<char> = Vec::new();
                push_str(&mut m, name);
                push_str(&mut m, " not parsable from '");
                push_str(&mut m, text);
                push_str(&mut m, "'!");
                assert(!is_number(wv[i as int]));
                assert(m@ =~= not_parsable_msg(name@, text@));
                return Err(ToleranceError::ParseError(string_of(&m)));
            },
        }
        i = i + 1;
    }
    assert(!exists|q: int| 0 <= q < wv.len() && !is_number(#[trigger] wv[q]));
    if values.len() == 0 {
        let mut m: Vec<char> = Vec::new();
        push_str(&mut m, "Can not parse an empty string into a ");
        push_str(&mut m, name);
        push_str(&mut m, "!");
        assert(m@ =~= empty_tolerance_msg(name@));
        return Err(ToleranceError::ParseError(string_of(&m)));
    }
    if values.len() > 3 {
        let mut m: Vec<char> = Vec::new();
        push_str(&mut m, name);
        push_str(&mut m, " not parsable from '");
        push_str(&mut m, text);
        push_str(&mut m, "'!");
        assert(m@ =~= not_parsable_msg(name@, text@));
        return Err(ToleranceError::ParseError(string_of(&m)));
    }
    let v = values[0];
    let p: i64 = if values.len() > 1 {
        values[1]
    } else {
        0
    };
    if !(vmin <= v && v <= vmax && dmin <= p && p <= dmax) {
        return Err(out_of_range_error());
    }
    let m: i64 = if values.len() > 2 {
        values[2]
    } else {
        -p
    };
    if !(dmin <= m && m <= dmax) {
        return Err(out_of_range_error());
    }
    if p < m {
        let mut msg: Vec<char> = Vec::new();
        push_str(&mut msg, name);
        push_str(&mut msg, " not parsable from '");
        push_str(&mut msg, text);
        push_str(&mut msg, "'!");
        assert(msg@ =~= not_parsable_msg(name@, text@));
        return Err(ToleranceError::ParseError(string_of(&msg)));
    }
    Ok((v, p, m))
}

} // verus!
