use vstd::prelude::*;
use vstd::std_specs::cmp::PartialOrdSpec;
use vstd::std_specs::ops::{AddSpec, NotSpec, SubSpec};

use crate::bytes::{
    be_bytes, be_value, le_bytes, le_value, lemma_bytes_value, lemma_value_bound, native_is_little,
    pow256, push_be, push_le, read_be, read_le, to_signed,
};
use crate::error::{ErrorKind, ToleranceError};
use crate::myth32::{fits_i32, Myth32};
use crate::myth64::{fits_i64, Myth64};
use crate::text::string_of;
use crate::tols::{
    lemma_tolerance_round_trip, pair_order, parse_tolerance, parts_outcome, push_tolerance,
    push_tolerance_debug, tolerance_debug, tolerance_from_parts, tolerance_outcome, tolerance_text,
};

verus! {

/// A length of 64 bits with a deviation of 32 bits each way, 128 bits in all.
///
/// `plus` and `minus` are in the same ticks as `value`; a well formed tolerance has
/// `plus >= minus`. The fields are declared in the order in which tolerances compare: by value,
/// then by minus, then by plus.
#[derive(Clone, Copy, PartialEq, Eq, Structural, Hash, Ord, Debug)]
pub struct T128 {
    pub value: Myth64,
    pub minus: Myth32,
    pub plus: Myth32,
}

impl T128 {
    /// Whether the plus deviation is not below the minus deviation.
    pub open spec fn wf(&self) -> bool {
        self.plus.0 >= self.minus.0
    }

    /// The largest length within this tolerance.
    pub open spec fn upper(&self) -> int {
        self.value.0 + self.plus.0
    }

    /// The smallest length within this tolerance.
    pub open spec fn lower(&self) -> int {
        self.value.0 + self.minus.0
    }

    /// Zero without deviations, the neutral element of addition.
    #[allow(non_snake_case)]
    pub fn ZERO() -> (r: T128)
        ensures
            r.value.0 == 0 && r.plus.0 == 0 && r.minus.0 == 0,
    {
        T128 { value: Myth64(0), minus: Myth32(0), plus: Myth32(0) }
    }

    /// A tolerance with the deviations `plus` and `minus`, which must not exceed `plus`.
    pub fn new(value: Myth64, plus: Myth32, minus: Myth32) -> (r: T128)
        requires
            plus.0 >= minus.0,
        ensures
            r.value == value && r.plus == plus && r.minus == minus,
            r.wf(),
    {
        T128 { value, minus, plus }
    }

    /// A tolerance of `tol` either way.
    pub fn with_sym(value: Myth64, tol: Myth32) -> (r: T128)
        requires
            tol.0 >= 0,
        ensures
            r.value == value && r.plus == tol && r.minus.0 == -tol.0,
            r.wf(),
    {
        T128::new(value, tol, Myth32(-tol.0))
    }

    /// The same value with the deviations `plus` and `minus`.
    pub fn narrow(&self, plus: Myth32, minus: Myth32) -> (r: T128)
        requires
            plus.0 >= minus.0,
        ensures
            r.value == self.value && r.plus == plus && r.minus == minus,
            r.wf(),
    {
        T128::new(self.value, plus, minus)
    }

    /// The same value with a deviation of `tol` either way.
    pub fn narrow_sym(&self, tol: Myth32) -> (r: T128)
        requires
            tol.0 >= 0,
        ensures
            r.value == self.value && r.plus == tol && r.minus.0 == -tol.0,
            r.wf(),
    {
        T128::with_sym(self.value, tol)
    }

    /// `value + plus`.
    pub fn upper_limit(&self) -> (r: Myth64)
        requires
            fits_i64(self.upper()),
        ensures
            r.0 == self.upper(),
    {
        Myth64(self.value.0 + self.plus.0 as i64)
    }

    /// `value + minus`.
    pub fn lower_limit(&self) -> (r: Myth64)
        requires
            fits_i64(self.lower()),
        ensures
            r.0 == self.lower(),
    {
        Myth64(self.value.0 + self.minus.0 as i64)
    }

    /// Whether the range of `self` lies within the range of `other`.
    pub open spec fn inside(&self, other: T128) -> bool {
        self.lower() >= other.lower() && self.upper() <= other.upper()
    }

    /// Whether the range of `self` lies within the range of `other`.
    pub fn is_inside_of(&self, other: T128) -> (r: bool)
        ensures
            r == self.inside(other),
    {
        let lo = self.value.0 as i128 + self.minus.0 as i128;
        let hi = self.value.0 as i128 + self.plus.0 as i128;
        let olo = other.value.0 as i128 + other.minus.0 as i128;
        let ohi = other.value.0 as i128 + other.plus.0 as i128;
        lo >= olo && hi <= ohi
    }

    /// Whether the range of `self` holds the range of `other`.
    pub fn enfold(&self, other: T128) -> (r: bool)
        ensures
            r == other.inside(*self),
    {
        other.is_inside_of(*self)
    }

    /// Whether the range of `self` holds the range of `other`, as `enfold` says.
    pub fn embrace(&self, other: T128) -> (r: bool)
        ensures
            r == other.inside(*self),
    {
        self.enfold(other)
    }

    /// The tolerance measured in the opposite direction: the value negated, the deviations
    /// swapped and negated.
    pub open spec fn inverted(&self) -> T128 {
        T128 {
            value: Myth64((-self.value.0) as i64),
            minus: Myth32((-self.plus.0) as i32),
            plus: Myth32((-self.minus.0) as i32),
        }
    }

    /// The tolerance measured in the opposite direction: the value negated, the deviations
    /// swapped and negated.
    pub fn invert(&self) -> (r: T128)
        requires
            self.value.0 != i64::MIN,
            self.plus.0 != i32::MIN,
            self.minus.0 != i32::MIN,
        ensures
            r.value.0 == -self.value.0,
            r.plus.0 == -self.minus.0,
            r.minus.0 == -self.plus.0,
            r == self.inverted(),
            self.wf() ==> r.wf(),
    {
        T128 { value: Myth64(-self.value.0), minus: Myth32(-self.plus.0), plus: Myth32(-self.minus.0) }
    }

    /// How `self` and `other` compare: by value, then by minus, then by plus.
    pub open spec fn compare(&self, other: &T128) -> core::cmp::Ordering {
        if self.value.0 != other.value.0 {
            if self.value.0 < other.value.0 {
                core::cmp::Ordering::Less
            } else {
                core::cmp::Ordering::Greater
            }
        } else if self.minus.0 != other.minus.0 {
            if self.minus.0 < other.minus.0 {
                core::cmp::Ordering::Less
            } else {
                core::cmp::Ordering::Greater
            }
        } else if self.plus.0 != other.plus.0 {
            if self.plus.0 < other.plus.0 {
                core::cmp::Ordering::Less
            } else {
                core::cmp::Ordering::Greater
            }
        } else {
            core::cmp::Ordering::Equal
        }
    }

    /// What reading `s` as a `T128` gives, as `tolerance_outcome` describes it.
    pub open spec fn parse_spec(s: Seq<char>) -> Result<T128, (ErrorKind, Seq<char>)> {
        match tolerance_outcome(
            s,
            "T128"@,
            i64::MIN as int,
            i64::MAX as int,
            i32::MIN as int,
            i32::MAX as int,
        ) {
            Ok((v, p, m)) => Ok(
                T128 { value: Myth64(v as i64), minus: Myth32(m as i32), plus: Myth32(p as i32) },
            ),
            Err(e) => Err(e),
        }
    }

    /// Reads a text such as `"12 +0.4/-1"`, `"12.0 +/-0.4"` or `"12"`.
    pub fn try_from_str(s: &str) -> (r: Result<T128, ToleranceError>)
        ensures
            match T128::parse_spec(s@) {
                Ok(t) => r == Ok::<T128, ToleranceError>(t),
                Err(e) => r is Err && r->Err_0@ == e,
            },
            r is Ok ==> r->Ok_0.wf(),
    {
        match parse_tolerance(s, "T128", i64::MIN, i64::MAX, i32::MIN as i64, i32::MAX as i64) {
            Ok((v, p, m)) => Ok(T128 { value: Myth64(v), minus: Myth32(m as i32), plus: Myth32(p as i32) }),
            Err(e) => Err(e),
        }
    }

    /// What `(value, plus, minus)` in ticks gives, as `parts_outcome` describes it.
    pub open spec fn parts_spec(v: Option<i64>, p: Option<i64>, m: Option<i64>) -> Result<
        T128,
        (ErrorKind, Seq<char>),
    > {
        match parts_outcome(
            v,
            p,
            m,
            "T128"@,
            i64::MIN as int,
            i64::MAX as int,
            i32::MIN as int,
            i32::MAX as int,
        ) {
            Ok((a, b, c)) => Ok(
                T128 { value: Myth64(a as i64), minus: Myth32(c as i32), plus: Myth32(b as i32) },
            ),
            Err(e) => Err(e),
        }
    }

    /// A tolerance from its value and deviations in ticks: a value alone has no deviations,
    /// a value and a plus deviation are symmetric.
    pub fn from_parts(v: Option<i64>, p: Option<i64>, m: Option<i64>) -> (r: Result<
        T128,
        ToleranceError,
    >)
        ensures
            match T128::parts_spec(v, p, m) {
                Ok(t) => r == Ok::<T128, ToleranceError>(t),
                Err(e) => r is Err && r->Err_0@ == e,
            },
            r is Ok ==> r->Ok_0.wf(),
    {
        match tolerance_from_parts(
            v,
            p,
            m,
            "T128",
            i64::MIN as i64,
            i64::MAX as i64,
            i32::MIN as i64,
            i32::MAX as i64,
        ) {
            Ok((a, b, c)) => Ok(T128 { value: Myth64(a as i64), minus: Myth32(c as i32), plus: Myth32(b as i32) }),
            Err(e) => Err(e),
        }
    }

    /// The text `value +plus/-minus` in millimeters, or `value +/-plus` where the deviations are
    /// symmetric; value and deviations have `precision` fraction digits.
    pub fn format(&self, precision: Option<usize>) -> (r: String)
        ensures
            r@ == tolerance_text(
                self.value.0 as int,
                self.plus.0 as int,
                self.minus.0 as int,
                precision,
                false,
            ),
    {
        let mut out: Vec<char> = Vec::new();
        push_tolerance(&mut out, self.value.0, self.plus.0 as i64, self.minus.0 as i64, precision, false);
        string_of(&out)
    }

    /// The text at the default precision.
    pub fn to_string(&self) -> (r: String)
        ensures
            r@ == tolerance_text(
                self.value.0 as int,
                self.plus.0 as int,
                self.minus.0 as int,
                None,
                false,
            ),
    {
        self.format(None)
    }

    /// The text `value +plus/-minus` in raw ticks.
    pub fn format_raw(&self, precision: Option<usize>) -> (r: String)
        ensures
            r@ == tolerance_text(
                self.value.0 as int,
                self.plus.0 as int,
                self.minus.0 as int,
                precision,
                true,
            ),
    {
        let mut out: Vec<char> = Vec::new();
        push_tolerance(&mut out, self.value.0, self.plus.0 as i64, self.minus.0 as i64, precision, true);
        string_of(&out)
    }

    /// The text `T128(value plus minus)` with every part in millimeters.
    pub fn format_debug(&self, precision: Option<usize>) -> (r: String)
        ensures
            r@ == tolerance_debug(
                "T128"@,
                self.value.0 as int,
                self.plus.0 as int,
                self.minus.0 as int,
                precision,
            ),
    {
        let mut out: Vec<char> = Vec::new();
        push_tolerance_debug(&mut out, "T128", self.value.0, self.plus.0 as i64, self.minus.0 as i64, precision);
        string_of(&out)
    }
}

impl T128 {
    /// The bytes of value, plus and minus in turn, each most significant first.
    pub open spec fn be_form(&self) -> Seq<u8> {
        be_bytes(self.value.unsigned(), 8) + be_bytes(self.plus.unsigned(), 4) + be_bytes(
            self.minus.unsigned(),
            4,
        )
    }

    /// The tolerance whose value, plus and minus have the bytes `b` in turn, each most
    /// significant first.
    pub open spec fn read_be_form(b: Seq<u8>) -> T128 {
        T128 {
            value: Myth64(to_signed(be_value(b.subrange(0, 8)), 0x10000000000000000) as i64),
            minus: Myth32(to_signed(be_value(b.subrange(12, 16)), 0x100000000) as i32),
            plus: Myth32(to_signed(be_value(b.subrange(8, 12)), 0x100000000) as i32),
        }
    }

    /// The bytes of value, plus and minus in turn, each least significant first.
    pub open spec fn le_form(&self) -> Seq<u8> {
        le_bytes(self.value.unsigned(), 8) + le_bytes(self.plus.unsigned(), 4) + le_bytes(
            self.minus.unsigned(),
            4,
        )
    }

    /// The tolerance whose value, plus and minus have the bytes `b` in turn, each least
    /// significant first.
    pub open spec fn read_le_form(b: Seq<u8>) -> T128 {
        T128 {
            value: Myth64(to_signed(le_value(b.subrange(0, 8)), 0x10000000000000000) as i64),
            minus: Myth32(to_signed(le_value(b.subrange(12, 16)), 0x100000000) as i32),
            plus: Myth32(to_signed(le_value(b.subrange(8, 12)), 0x100000000) as i32),
        }
    }

    /// The bytes of a tolerance, in either order, read back as the same tolerance.
    pub proof fn lemma_bytes_round_trip(t: T128)
        ensures
            T128::read_be_form(t.be_form()) == t,
            T128::read_le_form(t.le_form()) == t,
    {
        Myth64::lemma_bytes_round_trip(t.value);
        Myth32::lemma_bytes_round_trip(t.plus);
        Myth32::lemma_bytes_round_trip(t.minus);
        reveal_with_fuel(pow256, 9);
        lemma_bytes_value(t.value.unsigned(), 8);
        lemma_bytes_value(t.plus.unsigned(), 4);
        lemma_bytes_value(t.minus.unsigned(), 4);
        let b = t.be_form();
        assert(b.subrange(0, 8) =~= be_bytes(t.value.unsigned(), 8));
        assert(b.subrange(8, 12) =~= be_bytes(t.plus.unsigned(), 4));
        assert(b.subrange(12, 16) =~= be_bytes(t.minus.unsigned(), 4));
        let l = t.le_form();
        assert(l.subrange(0, 8) =~= le_bytes(t.value.unsigned(), 8));
        assert(l.subrange(8, 12) =~= le_bytes(t.plus.unsigned(), 4));
        assert(l.subrange(12, 16) =~= le_bytes(t.minus.unsigned(), 4));
    }

    /// The bytes of value, plus and minus in turn, each most significant first.
    pub fn to_be_bytes(&self) -> (r: [u8; 16])
        ensures
            r@ == self.be_form(),
    {
        let mut v: Vec<u8> = Vec::new();
        let a = self.value.unsigned_ticks();
        let b = self.plus.unsigned_ticks();
        let c = self.minus.unsigned_ticks();
        push_be(&mut v, a, 8);
        push_be(&mut v, b, 4);
        push_be(&mut v, c, 4);
        proof {
            lemma_bytes_value(a as int, 8);
            lemma_bytes_value(b as int, 4);
            lemma_bytes_value(c as int, 4);
        }
        let r = [v[0], v[1], v[2], v[3], v[4], v[5], v[6], v[7], v[8], v[9], v[10], v[11], v[12], v[13], v[14], v[15]];
        assert(r@ =~= v@);
        r
    }

    /// The bytes of value, plus and minus in turn, each least significant first.
    pub fn to_le_bytes(&self) -> (r: [u8; 16])
        ensures
            r@ == self.le_form(),
    {
        let mut v: Vec<u8> = Vec::new();
        let a = self.value.unsigned_ticks();
        let b = self.plus.unsigned_ticks();
        let c = self.minus.unsigned_ticks();
        push_le(&mut v, a, 8);
        push_le(&mut v, b, 4);
        push_le(&mut v, c, 4);
        proof {
            lemma_bytes_value(a as int, 8);
            lemma_bytes_value(b as int, 4);
            lemma_bytes_value(c as int, 4);
        }
        let r = [v[0], v[1], v[2], v[3], v[4], v[5], v[6], v[7], v[8], v[9], v[10], v[11], v[12], v[13], v[14], v[15]];
        assert(r@ =~= v@);
        r
    }

    /// The tolerance whose value, plus and minus have the bytes `bytes` in turn, each
    /// most significant first.
    pub fn from_be_bytes(bytes: [u8; 16]) -> (r: T128)
        ensures
            r == T128::read_be_form(bytes@),
    {
        let s = bytes.as_slice();
        let a = read_be(s, 0, 8);
        let b = read_be(s, 8, 4);
        let c = read_be(s, 12, 4);
        proof {
            lemma_value_bound(bytes@.subrange(0, 8));
            lemma_value_bound(bytes@.subrange(8, 12));
            lemma_value_bound(bytes@.subrange(12, 16));
        }
        T128 { value: Myth64::from_unsigned(a), minus: Myth32::from_unsigned(c), plus: Myth32::from_unsigned(b) }
    }

    /// The tolerance whose value, plus and minus have the bytes `bytes` in turn, each
    /// least significant first.
    pub fn from_le_bytes(bytes: [u8; 16]) -> (r: T128)
        ensures
            r == T128::read_le_form(bytes@),
    {
        let s = bytes.as_slice();
        let a = read_le(s, 0, 8);
        let b = read_le(s, 8, 4);
        let c = read_le(s, 12, 4);
        proof {
            lemma_value_bound(bytes@.subrange(0, 8));
            lemma_value_bound(bytes@.subrange(8, 12));
            lemma_value_bound(bytes@.subrange(12, 16));
        }
        T128 { value: Myth64::from_unsigned(a), minus: Myth32::from_unsigned(c), plus: Myth32::from_unsigned(b) }
    }
}

impl T128 {
    /// The bytes of value, plus and minus in turn, each in the order of this machine.
    pub fn to_ne_bytes(&self) -> (r: [u8; 16])
        ensures
            r@ == self.be_form() || r@ == self.le_form(),
    {
        if native_is_little() {
            self.to_le_bytes()
        } else {
            self.to_be_bytes()
        }
    }

    /// The tolerance whose value, plus and minus have the bytes `bytes` in turn, each in the
    /// order of this machine.
    pub fn from_ne_bytes(bytes: [u8; 16]) -> (r: T128)
        ensures
            r == T128::read_be_form(bytes@) || r == T128::read_le_form(bytes@),
    {
        if native_is_little() {
            T128::from_le_bytes(bytes)
        } else {
            T128::from_be_bytes(bytes)
        }
    }

    /// A tolerance from up to three numbers of ticks, as `from_parts` reads them.
    pub fn from_slice(values: &[i64]) -> (r: Result<T128, ToleranceError>)
        ensures
            match T128::parts_spec(
                if values@.len() > 0 {
                    Some(values@[0])
                } else {
                    None
                },
                if values@.len() > 1 {
                    Some(values@[1])
                } else {
                    None
                },
                if values@.len() > 2 {
                    Some(values@[2])
                } else {
                    None
                },
            ) {
                Ok(t) => r == Ok::<T128, ToleranceError>(t),
                Err(e) => r is Err && r->Err_0@ == e,
            },
    {
        let n = values.len();
        let v = if n > 0 {
            Some(values[0])
        } else {
            None
        };
        let p = if n > 1 {
            Some(values[1])
        } else {
            None
        };
        let m = if n > 2 {
            Some(values[2])
        } else {
            None
        };
        T128::from_parts(v, p, m)
    }
}

impl Default for T128 {
    /// Zero without deviations.
    fn default() -> (r: T128)
        ensures
            r.value.0 == 0 && r.plus.0 == 0 && r.minus.0 == 0,
    {
        T128::ZERO()
    }
}

impl core::ops::Mul<i64> for T128 {
    type Output = T128;

    /// Scales value and deviations alike.
    ///
    /// Overflow is a contract violation, not a wrap: `mul_req` asks that the product fit.
    fn mul(self, rhs: i64) -> (r: T128)
        ensures
            r.value.0 == self.value.0 * rhs,
            r.plus.0 == self.plus.0 * rhs,
            r.minus.0 == self.minus.0 * rhs,
    {
        T128 {
            value: Myth64((self.value.0 as i128 * rhs as i128) as i64),
            minus: Myth32((self.minus.0 as i128 * rhs as i128) as i32),
            plus: Myth32((self.plus.0 as i128 * rhs as i128) as i32),
        }
    }
}

impl vstd::std_specs::ops::MulSpecImpl<i64> for T128 {
    open spec fn obeys_mul_spec() -> bool {
        true
    }

    open spec fn mul_req(self, rhs: i64) -> bool {
        fits_i64(self.value.0 * rhs) && fits_i32(self.plus.0 * rhs) && fits_i32(self.minus.0 * rhs)
    }

    open spec fn mul_spec(self, rhs: i64) -> T128 {
        T128 {
            value: Myth64((self.value.0 * rhs) as i64),
            minus: Myth32((self.minus.0 * rhs) as i32),
            plus: Myth32((self.plus.0 * rhs) as i32),
        }
    }
}

impl PartialOrd for T128 {
    fn partial_cmp(&self, other: &T128) -> (r: Option<core::cmp::Ordering>)
        ensures
            r == Some(self.compare(other)),
    {
        if self.value.0 != other.value.0 {
            if self.value.0 < other.value.0 {
                Some(core::cmp::Ordering::Less)
            } else {
                Some(core::cmp::Ordering::Greater)
            }
        } else if self.minus.0 != other.minus.0 {
            if self.minus.0 < other.minus.0 {
                Some(core::cmp::Ordering::Less)
            } else {
                Some(core::cmp::Ordering::Greater)
            }
        } else if self.plus.0 != other.plus.0 {
            if self.plus.0 < other.plus.0 {
                Some(core::cmp::Ordering::Less)
            } else {
                Some(core::cmp::Ordering::Greater)
            }
        } else {
            Some(core::cmp::Ordering::Equal)
        }
    }
}

impl vstd::std_specs::cmp::PartialOrdSpecImpl for T128 {
    open spec fn obeys_partial_cmp_spec() -> bool {
        true
    }

    open spec fn partial_cmp_spec(&self, other: &T128) -> Option<core::cmp::Ordering> {
        Some(self.compare(other))
    }
}

impl core::ops::Add for T128 {
    type Output = T128;

    /// Adds value to value and deviation to deviation: stacked tolerances widen.
    ///
    /// Overflow is a contract violation, not a wrap: `add_req` asks that the sum fit.
    fn add(self, rhs: T128) -> (r: T128)
        ensures
            r.value.0 == self.value.0 + rhs.value.0,
            r.plus.0 == self.plus.0 + rhs.plus.0,
            r.minus.0 == self.minus.0 + rhs.minus.0,
    {
        T128 {
            value: Myth64(self.value.0 + rhs.value.0),
            minus: Myth32(self.minus.0 + rhs.minus.0),
            plus: Myth32(self.plus.0 + rhs.plus.0),
        }
    }
}

impl vstd::std_specs::ops::AddSpecImpl for T128 {
    open spec fn obeys_add_spec() -> bool {
        true
    }

    open spec fn add_req(self, rhs: T128) -> bool {
        fits_i64(self.value.0 + rhs.value.0) && fits_i32(self.plus.0 + rhs.plus.0) && fits_i32(
            self.minus.0 + rhs.minus.0,
        )
    }

    open spec fn add_spec(self, rhs: T128) -> T128 {
        T128 {
            value: Myth64((self.value.0 + rhs.value.0) as i64),
            minus: Myth32((self.minus.0 + rhs.minus.0) as i32),
            plus: Myth32((self.plus.0 + rhs.plus.0) as i32),
        }
    }
}

impl core::ops::Sub for T128 {
    type Output = T128;

    /// Subtracts the values; each deviation takes away the opposite deviation of `rhs`, so that
    /// the uncertainty widens.
    ///
    /// Overflow is a contract violation, not a wrap: `sub_req` asks that the difference fit.
    fn sub(self, rhs: T128) -> (r: T128)
        ensures
            r.value.0 == self.value.0 - rhs.value.0,
            r.plus.0 == self.plus.0 - rhs.minus.0,
            r.minus.0 == self.minus.0 - rhs.plus.0,
    {
        T128 {
            value: Myth64(self.value.0 - rhs.value.0),
            minus: Myth32(self.minus.0 - rhs.plus.0),
            plus: Myth32(self.plus.0 - rhs.minus.0),
        }
    }
}

impl vstd::std_specs::ops::SubSpecImpl for T128 {
    open spec fn obeys_sub_spec() -> bool {
        true
    }

    open spec fn sub_req(self, rhs: T128) -> bool {
        fits_i64(self.value.0 - rhs.value.0) && fits_i32(self.plus.0 - rhs.minus.0) && fits_i32(
            self.minus.0 - rhs.plus.0,
        )
    }

    open spec fn sub_spec(self, rhs: T128) -> T128 {
        T128 {
            value: Myth64((self.value.0 - rhs.value.0) as i64),
            minus: Myth32((self.minus.0 - rhs.plus.0) as i32),
            plus: Myth32((self.plus.0 - rhs.minus.0) as i32),
        }
    }
}

impl core::ops::Add<Myth64> for T128 {
    type Output = T128;

    /// Moves the value by `rhs`.
    ///
    /// Overflow is a contract violation, not a wrap: `add_req` asks that the sum fit.
    fn add(self, rhs: Myth64) -> (r: T128)
        ensures
            r.value.0 == self.value.0 + rhs.0,
            r.plus == self.plus && r.minus == self.minus,
    {
        T128 { value: Myth64(self.value.0 + rhs.0), minus: self.minus, plus: self.plus }
    }
}

impl vstd::std_specs::ops::AddSpecImpl<Myth64> for T128 {
    open spec fn obeys_add_spec() -> bool {
        true
    }

    open spec fn add_req(self, rhs: Myth64) -> bool {
        fits_i64(self.value.0 + rhs.0)
    }

    open spec fn add_spec(self, rhs: Myth64) -> T128 {
        T128 { value: Myth64((self.value.0 + rhs.0) as i64), minus: self.minus, plus: self.plus }
    }
}

impl core::ops::Sub<Myth64> for T128 {
    type Output = T128;

    /// Moves the value by `-rhs`.
    ///
    /// Overflow is a contract violation, not a wrap: `sub_req` asks that the difference fit.
    fn sub(self, rhs: Myth64) -> (r: T128)
        ensures
            r.value.0 == self.value.0 - rhs.0,
            r.plus == self.plus && r.minus == self.minus,
    {
        T128 { value: Myth64(self.value.0 - rhs.0), minus: self.minus, plus: self.plus }
    }
}

impl vstd::std_specs::ops::SubSpecImpl<Myth64> for T128 {
    open spec fn obeys_sub_spec() -> bool {
        true
    }

    open spec fn sub_req(self, rhs: Myth64) -> bool {
        fits_i64(self.value.0 - rhs.0)
    }

    open spec fn sub_spec(self, rhs: Myth64) -> T128 {
        T128 { value: Myth64((self.value.0 - rhs.0) as i64), minus: self.minus, plus: self.plus }
    }
}

impl core::ops::Add<Myth32> for T128 {
    type Output = T128;

    /// Moves the value by the length `rhs` of the deviation width.
    ///
    /// Overflow is a contract violation, not a wrap: `add_req` asks that the sum fit.
    fn add(self, rhs: Myth32) -> (r: T128)
        ensures
            r.value.0 == self.value.0 + rhs.0,
            r.plus == self.plus && r.minus == self.minus,
    {
        T128 { value: Myth64(self.value.0 + rhs.0 as i64), minus: self.minus, plus: self.plus }
    }
}

impl vstd::std_specs::ops::AddSpecImpl<Myth32> for T128 {
    open spec fn obeys_add_spec() -> bool {
        true
    }

    open spec fn add_req(self, rhs: Myth32) -> bool {
        fits_i64(self.value.0 + rhs.0)
    }

    open spec fn add_spec(self, rhs: Myth32) -> T128 {
        T128 { value: Myth64((self.value.0 + rhs.0) as i64), minus: self.minus, plus: self.plus }
    }
}

impl core::ops::Sub<Myth32> for T128 {
    type Output = T128;

    /// Moves the value by the length `-rhs` of the deviation width.
    ///
    /// Overflow is a contract violation, not a wrap: `sub_req` asks that the difference fit.
    fn sub(self, rhs: Myth32) -> (r: T128)
        ensures
            r.value.0 == self.value.0 - rhs.0,
            r.plus == self.plus && r.minus == self.minus,
    {
        T128 { value: Myth64(self.value.0 - rhs.0 as i64), minus: self.minus, plus: self.plus }
    }
}

impl vstd::std_specs::ops::SubSpecImpl<Myth32> for T128 {
    open spec fn obeys_sub_spec() -> bool {
        true
    }

    open spec fn sub_req(self, rhs: Myth32) -> bool {
        fits_i64(self.value.0 - rhs.0)
    }

    open spec fn sub_spec(self, rhs: Myth32) -> T128 {
        T128 { value: Myth64((self.value.0 - rhs.0) as i64), minus: self.minus, plus: self.plus }
    }
}

impl core::ops::Not for T128 {
    type Output = T128;

    /// The tolerance measured in the opposite direction, as `invert` says.
    ///
    /// Overflow is a contract violation, not a wrap: `not_req` asks that the negated parts fit.
    fn not(self) -> (r: T128)
        ensures
            r.value.0 == -self.value.0,
            r.plus.0 == -self.minus.0,
            r.minus.0 == -self.plus.0,
    {
        self.invert()
    }
}

impl vstd::std_specs::ops::NotSpecImpl for T128 {
    open spec fn obeys_not_spec() -> bool {
        true
    }

    open spec fn not_req(self) -> bool {
        self.value.0 != i64::MIN && self.plus.0 != i32::MIN && self.minus.0 != i32::MIN
    }

    open spec fn not_spec(self) -> T128 {
        self.inverted()
    }
}

impl From<Myth64> for T128 {
    /// `value` without deviations.
    fn from(value: Myth64) -> (r: T128)
        ensures
            r.value == value && r.plus.0 == 0 && r.minus.0 == 0,
    {
        T128 { value, minus: Myth32(0), plus: Myth32(0) }
    }
}

impl vstd::std_specs::convert::FromSpecImpl<Myth64> for T128 {
    open spec fn obeys_from_spec() -> bool {
        true
    }

    open spec fn from_spec(value: Myth64) -> T128 {
        T128 { value, minus: Myth32(0), plus: Myth32(0) }
    }
}

impl<'a> TryFrom<&'a str> for T128 {
    type Error = ToleranceError;

    /// Reads a tolerance text, as `T128::try_from_str` does.
    fn try_from(s: &'a str) -> (r: Result<T128, ToleranceError>)
        ensures
            match T128::parse_spec(s@) {
                Ok(t) => r == Ok::<T128, ToleranceError>(t),
                Err(e) => r is Err && r->Err_0@ == e,
            },
    {
        T128::try_from_str(s)
    }
}

impl<'a> vstd::std_specs::convert::TryFromSpecImpl<&'a str> for T128 {
    /// The error holds a `String`, which no spec function can build: the `try_from` above
    /// states its outcome in its own `ensures`.
    open spec fn obeys_try_from_spec() -> bool {
        false
    }

    open spec fn try_from_spec(s: &'a str) -> Result<T128, ToleranceError> {
        arbitrary()
    }
}

impl TryFrom<String> for T128 {
    type Error = ToleranceError;

    /// Reads a tolerance text, as `T128::try_from_str` does.
    fn try_from(s: String) -> (r: Result<T128, ToleranceError>)
        ensures
            match T128::parse_spec(s@) {
                Ok(t) => r == Ok::<T128, ToleranceError>(t),
                Err(e) => r is Err && r->Err_0@ == e,
            },
    {
        T128::try_from_str(s.as_str())
    }
}

impl vstd::std_specs::convert::TryFromSpecImpl<String> for T128 {
    /// The error holds a `String`, which no spec function can build: the `try_from` above
    /// states its outcome in its own `ensures`.
    open spec fn obeys_try_from_spec() -> bool {
        false
    }

    open spec fn try_from_spec(s: String) -> Result<T128, ToleranceError> {
        arbitrary()
    }
}

impl core::str::FromStr for T128 {
    type Err = ToleranceError;

    /// Reads a tolerance text, as `T128::try_from_str` does.
    fn from_str(s: &str) -> (r: Result<T128, ToleranceError>)
        ensures
            match T128::parse_spec(s@) {
                Ok(t) => r == Ok::<T128, ToleranceError>(t),
                Err(e) => r is Err && r->Err_0@ == e,
            },
    {
        T128::try_from_str(s)
    }
}

impl T128 {
    /// Every well formed tolerance, shown with four fraction digits, reads back as itself.
    pub proof fn lemma_round_trip(t: T128)
        requires
            t.wf(),
        ensures
            T128::parse_spec(
                tolerance_text(
                    t.value.0 as int,
                    t.plus.0 as int,
                    t.minus.0 as int,
                    Some(4usize),
                    false,
                ),
            ) == Ok::<T128, (ErrorKind, Seq<char>)>(t),
    {
        lemma_tolerance_round_trip(
            t.value.0 as int,
            t.plus.0 as int,
            t.minus.0 as int,
            "T128"@,
            i64::MIN as int,
            i64::MAX as int,
            i32::MIN as int,
            i32::MAX as int,
        );
    }

    /// Every tolerance lies within itself.
    pub proof fn lemma_inside_of_itself(t: T128)
        ensures
            t.inside(t),
    {
    }

    /// Tolerances of equal value are ordered by their deviations, minus first.
    pub proof fn lemma_order_by_deviations(a: T128, b: T128)
        requires
            a.value == b.value,
        ensures
            a.partial_cmp_spec(&b) == Some(
                pair_order(a.minus.0 as int, a.plus.0 as int, b.minus.0 as int, b.plus.0 as int),
            ),
    {
    }

    /// A tolerance plus its inversion has the value zero and widens to `plus - minus` either
    /// way, wherever those fit.
    pub proof fn lemma_add_inverted(t: T128)
        requires
            t.not_req(),
            fits_i32(t.plus.0 - t.minus.0),
            fits_i32(t.minus.0 - t.plus.0),
        ensures
            t.add_req(t.not_spec()),
            t.add_spec(t.not_spec()) == (T128 {
                value: Myth64(0),
                minus: Myth32((t.minus.0 - t.plus.0) as i32),
                plus: Myth32((t.plus.0 - t.minus.0) as i32),
            }),
    {
    }
}

/// The sums of the values, of the plus and of the minus deviations of `items`.
pub open spec fn totals_128(items: Seq<T128>) -> (int, int, int)
    decreases items.len(),
{
    if items.len() == 0 {
        (0, 0, 0)
    } else {
        let (v, p, m) = totals_128(items.drop_last());
        (v + items.last().value.0, p + items.last().plus.0, m + items.last().minus.0)
    }
}

/// Whether the sums of `items` fit their widths.
pub open spec fn totals_fit_128(items: Seq<T128>) -> bool {
    let (v, p, m) = totals_128(items);
    fits_i64(v) && fits_i32(p) && fits_i32(m)
}

impl T128 {
    /// Adds `rhs` in place, as `+=` would: stacked tolerances widen.
    pub fn add_assign(&mut self, rhs: T128)
        requires
            old(self).add_req(rhs),
        ensures
            *final(self) == old(self).add_spec(rhs),
    {
        self.value = Myth64(self.value.0 + rhs.value.0);
        self.plus = Myth32(self.plus.0 + rhs.plus.0);
        self.minus = Myth32(self.minus.0 + rhs.minus.0);
    }

    /// Subtracts `rhs` in place, as `-=` would; the deviations cross as in `-`.
    pub fn sub_assign(&mut self, rhs: T128)
        requires
            old(self).sub_req(rhs),
        ensures
            *final(self) == old(self).sub_spec(rhs),
    {
        let plus = Myth32(self.plus.0 - rhs.minus.0);
        let minus = Myth32(self.minus.0 - rhs.plus.0);
        self.value = Myth64(self.value.0 - rhs.value.0);
        self.plus = plus;
        self.minus = minus;
    }

    /// The sum of `items`, which must fit at every step.
    pub fn sum_of(items: &Vec<T128>) -> (r: T128)
        requires
            forall|k: int| 0 <= k <= items@.len() ==> #[trigger] totals_fit_128(items@.take(k)),
        ensures
            (r.value.0 as int, r.plus.0 as int, r.minus.0 as int) == totals_128(items@),
    {
        let mut acc = T128::ZERO();
        let mut i: usize = 0;
        assert(items@.take(0) =~= Seq::<T128>::empty());
        while i < items.len()
            invariant
                i <= items@.len(),
                (acc.value.0 as int, acc.plus.0 as int, acc.minus.0 as int) == totals_128(
                    items@.take(i as int),
                ),
                forall|k: int| 0 <= k <= items@.len() ==> #[trigger] totals_fit_128(items@.take(k)),
            decreases items@.len() - i,
        {
            assert(items@.take(i + 1).drop_last() =~= items@.take(i as int));
            assert(totals_fit_128(items@.take(i + 1)));
            let t = items[i];
            acc = T128 {
                value: Myth64(acc.value.0 + t.value.0),
                minus: Myth32(acc.minus.0 + t.minus.0),
                plus: Myth32(acc.plus.0 + t.plus.0),
            };
            i = i + 1;
        }
        assert(items@.take(i as int) =~= items@);
        acc
    }
}

impl core::ops::Neg for T128 {
    type Output = T128;

    /// Negates value and deviations alike; the result keeps `plus >= minus` only where both
    /// deviations are equal, so `neg_req` asks for `plus <= minus`.
    ///
    /// Overflow is a contract violation, not a wrap: `neg_req` asks that the negation fit.
    fn neg(self) -> (r: T128)
        ensures
            r.value.0 == -self.value.0,
            r.plus.0 == -self.plus.0,
            r.minus.0 == -self.minus.0,
    {
        T128 { value: Myth64(-self.value.0), minus: Myth32(-self.minus.0), plus: Myth32(-self.plus.0) }
    }
}

impl vstd::std_specs::ops::NegSpecImpl for T128 {
    open spec fn obeys_neg_spec() -> bool {
        true
    }

    open spec fn neg_req(self) -> bool {
        self.value.0 != i64::MIN && self.plus.0 != i32::MIN && self.minus.0 != i32::MIN
            && self.plus.0 <= self.minus.0
    }

    open spec fn neg_spec(self) -> T128 {
        T128 {
            value: Myth64((-self.value.0) as i64),
            minus: Myth32((-self.minus.0) as i32),
            plus: Myth32((-self.plus.0) as i32),
        }
    }
}

impl TryFrom<(Option<i64>, Option<i64>, Option<i64>)> for T128 {
    type Error = ToleranceError;

    /// A tolerance from its value and deviations in ticks, as `T128::from_parts` reads them.
    fn try_from(parts: (Option<i64>, Option<i64>, Option<i64>)) -> (r: Result<T128, ToleranceError>)
        ensures
            match T128::parts_spec(parts.0, parts.1, parts.2) {
                Ok(t) => r == Ok::<T128, ToleranceError>(t),
                Err(e) => r is Err && r->Err_0@ == e,
            },
    {
        T128::from_parts(parts.0, parts.1, parts.2)
    }
}

impl vstd::std_specs::convert::TryFromSpecImpl<(Option<i64>, Option<i64>, Option<i64>)> for T128 {
    /// The error holds a `String`, which no spec function can build: the `try_from` above
    /// states its outcome in its own `ensures`.
    open spec fn obeys_try_from_spec() -> bool {
        false
    }

    open spec fn try_from_spec(parts: (Option<i64>, Option<i64>, Option<i64>)) -> Result<
        T128,
        ToleranceError,
    > {
        arbitrary()
    }
}

} // verus!
