use vstd::prelude::*;
use vstd::std_specs::ops::{AddSpec, NegSpec};

use crate::bytes::{
    be_bytes, be_value, le_bytes, le_value, lemma_bytes_value, lemma_value_bound, native_is_little,
    pow256, push_be, push_le, read_be, read_le, to_signed, to_unsigned,
};
use crate::error::{ErrorKind, ToleranceError};
use crate::myth16::Myth16;
use crate::myth32::Myth32;
use crate::text::string_of;
use crate::ticks::{
    display_ticks, div_ticks, floor_ticks, floor_to, fmt_int, lemma_display_parse, number_outcome,
    parse_ticks, push_display, push_int, round_ticks, round_to, trunc_div,
};
use crate::unit::Unit;

verus! {

/// A length of 64 bits: a count of ticks, each a tenth of a micrometer.
///
/// `10` ticks are one micrometer, `10_000` one millimeter and `10_000_000` one meter.
/// It holds at most about 922 million kilometers either way. The text form shows millimeters.
#[derive(Clone, Copy, PartialEq, Eq, Structural, Hash, Default, PartialOrd, Ord, Debug)]
pub struct Myth64(pub i64);

pub open spec fn fits_i64(v: int) -> bool {
    i64::MIN <= v <= i64::MAX
}

impl Myth64 {
    /// One millimeter, the neutral element of multiplication.
    #[allow(non_snake_case)]
    pub fn ONE() -> (r: Myth64)
        ensures
            r.0 == 10_000,
    {
        Myth64(10_000)
    }

    /// Zero, the neutral element of addition.
    #[allow(non_snake_case)]
    pub fn ZERO() -> (r: Myth64)
        ensures
            r.0 == 0,
    {
        Myth64(0)
    }

    /// The smallest value.
    #[allow(non_snake_case)]
    pub fn MIN() -> (r: Myth64)
        ensures
            r.0 == i64::MIN,
    {
        Myth64(i64::MIN)
    }

    /// The largest value.
    #[allow(non_snake_case)]
    pub fn MAX() -> (r: Myth64)
        ensures
            r.0 == i64::MAX,
    {
        Myth64(i64::MAX)
    }

    /// The ticks.
    pub fn as_i64(&self) -> (r: i64)
        ensures
            r == self.0,
    {
        self.0
    }

    /// Rounds to the nearest multiple of `unit`, half a unit away from zero; a zero unit keeps
    /// the value.
    pub fn round(&self, unit: Unit) -> (r: Myth64)
        requires
            unit.0 >= 0,
            fits_i64(round_to(self.0 as int, unit.0 as int)),
        ensures
            r.0 == round_to(self.0 as int, unit.0 as int),
    {
        Myth64(round_ticks(self.0, unit.0) as i64)
    }

    /// The greatest multiple of `unit` that is not above this value.
    pub fn floor(&self, unit: Unit) -> (r: Myth64)
        requires
            unit.0 > 0,
            fits_i64(floor_to(self.0 as int, unit.0 as int)),
        ensures
            r.0 == floor_to(self.0 as int, unit.0 as int),
    {
        Myth64(floor_ticks(self.0, unit.0) as i64)
    }

    /// The absolute value.
    pub fn abs(&self) -> (r: Myth64)
        requires
            self.0 != i64::MIN,
        ensures
            r.0 == if self.0 < 0 {
                -self.0
            } else {
                self.0 as int
            },
    {
        if self.0 < 0 {
            Myth64(-self.0)
        } else {
            *self
        }
    }

    /// The absolute difference between `self` and `other`.
    pub fn abs_diff(self, other: Myth64) -> (r: Myth64)
        requires
            fits_i64(self.0 - other.0),
            self.0 - other.0 != i64::MIN,
        ensures
            r.0 == if self.0 < other.0 {
                other.0 - self.0
            } else {
                self.0 - other.0
            },
    {
        Myth64(self.0 - other.0).abs()
    }

    /// `-1`, `0` or `1` ticks, after the sign of this value.
    pub fn signum(self) -> (r: Myth64)
        ensures
            r.0 == if self.0 < 0 {
                -1
            } else if self.0 > 0 {
                1
            } else {
                0
            },
    {
        if self.is_negative() {
            Myth64(-1)
        } else if self.is_positive() {
            Myth64(1)
        } else {
            Myth64(0)
        }
    }

    pub fn is_negative(&self) -> (r: bool)
        ensures
            r == (self.0 < 0),
    {
        self.0 < 0
    }

    pub fn is_positive(&self) -> (r: bool)
        ensures
            r == (self.0 > 0),
    {
        self.0 > 0
    }

    pub fn is_zero(&self) -> (r: bool)
        ensures
            r == (self.0 == 0),
    {
        self.0 == 0
    }

    /// What reading `s` as a `Myth64` gives, as `number_outcome` describes it.
    pub open spec fn parse_spec(s: Seq<char>) -> Result<Myth64, (ErrorKind, Seq<char>)> {
        match number_outcome(s, "Myth64"@, i64::MIN as int, i64::MAX as int) {
            Ok(n) => Ok(Myth64(n as i64)),
            Err(e) => Err(e),
        }
    }

    /// Reads a millimeter text such as `"-12.5"`, `" +3"` or `".04"`.
    pub fn try_from_str(s: &str) -> (r: Result<Myth64, ToleranceError>)
        ensures
            match Myth64::parse_spec(s@) {
                Ok(m) => r == Ok::<Myth64, ToleranceError>(m),
                Err(e) => r is Err && r->Err_0@ == e,
            },
    {
        match parse_ticks(s, "Myth64", i64::MIN, i64::MAX) {
            Ok(n) => Ok(Myth64(n)),
            Err(e) => Err(e),
        }
    }

    /// The millimeters with `precision` fraction digits (at most four), or with as few as show
    /// the value exactly.
    pub fn format(&self, precision: Option<usize>) -> (r: String)
        ensures
            r@ == display_ticks(self.0 as int, precision, false),
    {
        let mut out: Vec<char> = Vec::new();
        push_display(&mut out, self.0, precision, false);
        string_of(&out)
    }

    /// The millimeters with as few fraction digits as show the value exactly.
    pub fn to_string(&self) -> (r: String)
        ensures
            r@ == display_ticks(self.0 as int, None, false),
    {
        self.format(None)
    }

    /// The ticks as a plain integer.
    pub fn format_raw(&self) -> (r: String)
        ensures
            r@ == fmt_int(self.0 as int, false),
    {
        let mut out: Vec<char> = Vec::new();
        push_int(&mut out, self.0, false);
        string_of(&out)
    }
}

impl Myth64 {
    /// The ticks in two's complement.
    pub open spec fn unsigned(&self) -> int {
        to_unsigned(self.0 as int, 0x10000000000000000)
    }

    pub(crate) fn unsigned_ticks(&self) -> (r: u64)
        ensures
            r == self.unsigned(),
            r < pow256(8),
    {
        proof {
            reveal_with_fuel(pow256, 9);
        }
        if self.0 < 0 {
            (self.0 as i128 + 0x10000000000000000) as u64
        } else {
            self.0 as u64
        }
    }

    pub(crate) fn from_unsigned(u: u64) -> (r: Myth64)
        requires
            u < pow256(8),
        ensures
            r.0 == to_signed(u as int, 0x10000000000000000),
    {
        proof {
            reveal_with_fuel(pow256, 9);
        }
        if u as u128 >= 0x10000000000000000 / 2 {
            Myth64((u as i128 - 0x10000000000000000) as i64)
        } else {
            Myth64(u as i64)
        }
    }

    /// The bytes of the ticks, most significant first.
    pub fn to_be_bytes(&self) -> (r: [u8; 8])
        ensures
            r@ == be_bytes(self.unsigned(), 8),
    {
        let u = self.unsigned_ticks();
        let mut v: Vec<u8> = Vec::new();
        push_be(&mut v, u, 8);
        proof {
            lemma_bytes_value(u as int, 8);
        }
        let r = [v[0], v[1], v[2], v[3], v[4], v[5], v[6], v[7]];
        assert(r@ =~= v@);
        r
    }

    /// The bytes of the ticks, least significant first.
    pub fn to_le_bytes(&self) -> (r: [u8; 8])
        ensures
            r@ == le_bytes(self.unsigned(), 8),
    {
        let u = self.unsigned_ticks();
        let mut v: Vec<u8> = Vec::new();
        push_le(&mut v, u, 8);
        proof {
            lemma_bytes_value(u as int, 8);
        }
        let r = [v[0], v[1], v[2], v[3], v[4], v[5], v[6], v[7]];
        assert(r@ =~= v@);
        r
    }

    /// The bytes of the ticks in the order of this machine.
    pub fn to_ne_bytes(&self) -> (r: [u8; 8])
        ensures
            r@ == be_bytes(self.unsigned(), 8) || r@ == le_bytes(self.unsigned(), 8),
    {
        if native_is_little() {
            self.to_le_bytes()
        } else {
            self.to_be_bytes()
        }
    }

    /// The length whose ticks have the bytes `bytes`, most significant first.
    pub fn from_be_bytes(bytes: [u8; 8]) -> (r: Myth64)
        ensures
            r.0 == to_signed(be_value(bytes@), 0x10000000000000000),
    {
        let u = read_be(bytes.as_slice(), 0, 8);
        assert(bytes@.subrange(0, 8) =~= bytes@);
        proof {
            lemma_value_bound(bytes@);
        }
        Myth64::from_unsigned(u)
    }

    /// The length whose ticks have the bytes `bytes`, least significant first.
    pub fn from_le_bytes(bytes: [u8; 8]) -> (r: Myth64)
        ensures
            r.0 == to_signed(le_value(bytes@), 0x10000000000000000),
    {
        let u = read_le(bytes.as_slice(), 0, 8);
        assert(bytes@.subrange(0, 8) =~= bytes@);
        proof {
            lemma_value_bound(bytes@);
        }
        Myth64::from_unsigned(u)
    }

    /// The length whose ticks have the bytes `bytes` in the order of this machine.
    pub fn from_ne_bytes(bytes: [u8; 8]) -> (r: Myth64)
        ensures
            r.0 == to_signed(be_value(bytes@), 0x10000000000000000) || r.0 == to_signed(le_value(bytes@), 0x10000000000000000),
    {
        if native_is_little() {
            Myth64::from_le_bytes(bytes)
        } else {
            Myth64::from_be_bytes(bytes)
        }
    }

    /// The bytes of a length, in either order, read back as the same length.
    pub proof fn lemma_bytes_round_trip(x: Myth64)
        ensures
            to_signed(be_value(be_bytes(x.unsigned(), 8)), 0x10000000000000000) == x.0,
            to_signed(le_value(le_bytes(x.unsigned(), 8)), 0x10000000000000000) == x.0,
    {
        reveal_with_fuel(pow256, 9);
        lemma_bytes_value(x.unsigned(), 8);
    }
}

/// The ticks of all of `items` together.
pub open spec fn total_64(items: Seq<Myth64>) -> int
    decreases items.len(),
{
    if items.len() == 0 {
        0
    } else {
        total_64(items.drop_last()) + items.last().0
    }
}

impl Myth64 {
    /// The sum of `items`, which must fit at every step.
    pub fn sum_of(items: &Vec<Myth64>) -> (r: Myth64)
        requires
            forall|k: int| 0 <= k <= items@.len() ==> fits_i64(#[trigger] total_64(items@.take(k))),
        ensures
            r.0 == total_64(items@),
    {
        let mut acc: i64 = 0;
        let mut i: usize = 0;
        assert(items@.take(0) =~= Seq::<Myth64>::empty());
        while i < items.len()
            invariant
                i <= items@.len(),
                acc == total_64(items@.take(i as int)),
                forall|k: int| 0 <= k <= items@.len() ==> fits_i64(#[trigger] total_64(items@.take(k))),
            decreases items@.len() - i,
        {
            assert(items@.take(i + 1).drop_last() =~= items@.take(i as int));
            assert(fits_i64(total_64(items@.take(i + 1))));
            acc = acc + items[i].0;
            i = i + 1;
        }
        assert(items@.take(i as int) =~= items@);
        Myth64(acc)
    }
}

impl core::ops::Add<Myth64> for Myth64 {
    type Output = Myth64;

    /// Overflow is a contract violation, not a wrap: `add_req` asks that the sum fit.
    fn add(self, rhs: Myth64) -> (r: Myth64)
        ensures
            r.0 == self.0 + rhs.0,
    {
        Myth64(self.0 + rhs.0)
    }
}

impl vstd::std_specs::ops::AddSpecImpl<Myth64> for Myth64 {
    open spec fn obeys_add_spec() -> bool {
        true
    }

    open spec fn add_req(self, rhs: Myth64) -> bool {
        fits_i64(self.0 + rhs.0)
    }

    open spec fn add_spec(self, rhs: Myth64) -> Myth64 {
        Myth64((self.0 + rhs.0) as i64)
    }
}

impl core::ops::Sub<Myth64> for Myth64 {
    type Output = Myth64;

    /// Overflow is a contract violation, not a wrap: `sub_req` asks that the difference fit.
    fn sub(self, rhs: Myth64) -> (r: Myth64)
        ensures
            r.0 == self.0 - rhs.0,
    {
        Myth64(self.0 - rhs.0)
    }
}

impl vstd::std_specs::ops::SubSpecImpl<Myth64> for Myth64 {
    open spec fn obeys_sub_spec() -> bool {
        true
    }

    open spec fn sub_req(self, rhs: Myth64) -> bool {
        fits_i64(self.0 - rhs.0)
    }

    open spec fn sub_spec(self, rhs: Myth64) -> Myth64 {
        Myth64((self.0 - rhs.0) as i64)
    }
}

impl core::ops::Add<Myth32> for Myth64 {
    type Output = Myth64;

    /// Overflow is a contract violation, not a wrap: `add_req` asks that the sum fit.
    fn add(self, rhs: Myth32) -> (r: Myth64)
        ensures
            r.0 == self.0 + rhs.0,
    {
        Myth64(self.0 + rhs.0 as i64)
    }
}

impl vstd::std_specs::ops::AddSpecImpl<Myth32> for Myth64 {
    open spec fn obeys_add_spec() -> bool {
        true
    }

    open spec fn add_req(self, rhs: Myth32) -> bool {
        fits_i64(self.0 + rhs.0)
    }

    open spec fn add_spec(self, rhs: Myth32) -> Myth64 {
        Myth64((self.0 + rhs.0) as i64)
    }
}

impl core::ops::Sub<Myth32> for Myth64 {
    type Output = Myth64;

    /// Overflow is a contract violation, not a wrap: `sub_req` asks that the difference fit.
    fn sub(self, rhs: Myth32) -> (r: Myth64)
        ensures
            r.0 == self.0 - rhs.0,
    {
        Myth64(self.0 - rhs.0 as i64)
    }
}

impl vstd::std_specs::ops::SubSpecImpl<Myth32> for Myth64 {
    open spec fn obeys_sub_spec() -> bool {
        true
    }

    open spec fn sub_req(self, rhs: Myth32) -> bool {
        fits_i64(self.0 - rhs.0)
    }

    open spec fn sub_spec(self, rhs: Myth32) -> Myth64 {
        Myth64((self.0 - rhs.0) as i64)
    }
}

impl core::ops::Add<Myth16> for Myth64 {
    type Output = Myth64;

    /// Overflow is a contract violation, not a wrap: `add_req` asks that the sum fit.
    fn add(self, rhs: Myth16) -> (r: Myth64)
        ensures
            r.0 == self.0 + rhs.0,
    {
        Myth64(self.0 + rhs.0 as i64)
    }
}

impl vstd::std_specs::ops::AddSpecImpl<Myth16> for Myth64 {
    open spec fn obeys_add_spec() -> bool {
        true
    }

    open spec fn add_req(self, rhs: Myth16) -> bool {
        fits_i64(self.0 + rhs.0)
    }

    open spec fn add_spec(self, rhs: Myth16) -> Myth64 {
        Myth64((self.0 + rhs.0) as i64)
    }
}

impl core::ops::Sub<Myth16> for Myth64 {
    type Output = Myth64;

    /// Overflow is a contract violation, not a wrap: `sub_req` asks that the difference fit.
    fn sub(self, rhs: Myth16) -> (r: Myth64)
        ensures
            r.0 == self.0 - rhs.0,
    {
        Myth64(self.0 - rhs.0 as i64)
    }
}

impl vstd::std_specs::ops::SubSpecImpl<Myth16> for Myth64 {
    open spec fn obeys_sub_spec() -> bool {
        true
    }

    open spec fn sub_req(self, rhs: Myth16) -> bool {
        fits_i64(self.0 - rhs.0)
    }

    open spec fn sub_spec(self, rhs: Myth16) -> Myth64 {
        Myth64((self.0 - rhs.0) as i64)
    }
}

impl core::ops::Neg for Myth64 {
    type Output = Myth64;

    /// Overflow is a contract violation, not a wrap: `neg_req` asks that the negation fit.
    fn neg(self) -> (r: Myth64)
        ensures
            r.0 == -self.0,
    {
        Myth64(-self.0)
    }
}

impl vstd::std_specs::ops::NegSpecImpl for Myth64 {
    open spec fn obeys_neg_spec() -> bool {
        true
    }

    open spec fn neg_req(self) -> bool {
        self.0 != i64::MIN
    }

    open spec fn neg_spec(self) -> Myth64 {
        Myth64((-self.0) as i64)
    }
}

impl core::ops::Mul<i64> for Myth64 {
    type Output = Myth64;

    /// Overflow is a contract violation, not a wrap: `mul_req` asks that the product fit.
    fn mul(self, rhs: i64) -> (r: Myth64)
        ensures
            r.0 == self.0 * rhs,
    {
        Myth64((self.0 as i128 * rhs as i128) as i64)
    }
}

impl vstd::std_specs::ops::MulSpecImpl<i64> for Myth64 {
    open spec fn obeys_mul_spec() -> bool {
        true
    }

    open spec fn mul_req(self, rhs: i64) -> bool {
        fits_i64(self.0 * rhs)
    }

    open spec fn mul_spec(self, rhs: i64) -> Myth64 {
        Myth64((self.0 * rhs) as i64)
    }
}

impl core::ops::Mul<Myth64> for i64 {
    type Output = Myth64;

    /// Overflow is a contract violation, not a wrap: `mul_req` asks that the product fit.
    fn mul(self, rhs: Myth64) -> (r: Myth64)
        ensures
            r.0 == self * rhs.0,
    {
        Myth64((self as i128 * rhs.0 as i128) as i64)
    }
}

impl vstd::std_specs::ops::MulSpecImpl<Myth64> for i64 {
    open spec fn obeys_mul_spec() -> bool {
        true
    }

    open spec fn mul_req(self, rhs: Myth64) -> bool {
        fits_i64(self * rhs.0)
    }

    open spec fn mul_spec(self, rhs: Myth64) -> Myth64 {
        Myth64((self * rhs.0) as i64)
    }
}

impl core::ops::Div<i64> for Myth64 {
    type Output = Myth64;

    /// Divides, rounding toward zero.
    ///
    /// Overflow is a contract violation, not a wrap: `div_req` asks that the quotient fit.
    fn div(self, rhs: i64) -> (r: Myth64)
        ensures
            r.0 == trunc_div(self.0 as int, rhs as int),
    {
        Myth64(div_ticks(self.0 as i64, rhs) as i64)
    }
}

impl vstd::std_specs::ops::DivSpecImpl<i64> for Myth64 {
    open spec fn obeys_div_spec() -> bool {
        true
    }

    open spec fn div_req(self, rhs: i64) -> bool {
        rhs != 0 && fits_i64(trunc_div(self.0 as int, rhs as int))
    }

    open spec fn div_spec(self, rhs: i64) -> Myth64 {
        Myth64(trunc_div(self.0 as int, rhs as int) as i64)
    }
}

impl From<i64> for Myth64 {
    fn from(v: i64) -> (r: Myth64)
        ensures
            r.0 == v,
    {
        Myth64(v)
    }
}

impl vstd::std_specs::convert::FromSpecImpl<i64> for Myth64 {
    open spec fn obeys_from_spec() -> bool {
        true
    }

    open spec fn from_spec(v: i64) -> Myth64 {
        Myth64(v)
    }
}

impl From<Myth32> for Myth64 {
    fn from(m: Myth32) -> (r: Myth64)
        ensures
            r.0 == m.0,
    {
        Myth64(m.0 as i64)
    }
}

impl vstd::std_specs::convert::FromSpecImpl<Myth32> for Myth64 {
    open spec fn obeys_from_spec() -> bool {
        true
    }

    open spec fn from_spec(m: Myth32) -> Myth64 {
        Myth64(m.0 as i64)
    }
}

impl From<Myth16> for Myth64 {
    fn from(m: Myth16) -> (r: Myth64)
        ensures
            r.0 == m.0,
    {
        Myth64(m.0 as i64)
    }
}

impl vstd::std_specs::convert::FromSpecImpl<Myth16> for Myth64 {
    open spec fn obeys_from_spec() -> bool {
        true
    }

    open spec fn from_spec(m: Myth16) -> Myth64 {
        Myth64(m.0 as i64)
    }
}

impl<'a> TryFrom<&'a str> for Myth64 {
    type Error = ToleranceError;

    /// Reads a millimeter text, as `Myth64::try_from_str` does.
    fn try_from(s: &'a str) -> (r: Result<Myth64, ToleranceError>)
        ensures
            match Myth64::parse_spec(s@) {
                Ok(t) => r == Ok::<Myth64, ToleranceError>(t),
                Err(e) => r is Err && r->Err_0@ == e,
            },
    {
        Myth64::try_from_str(s)
    }
}

impl<'a> vstd::std_specs::convert::TryFromSpecImpl<&'a str> for Myth64 {
    /// The error holds a `String`, which no spec function can build: the `try_from` above
    /// states its outcome in its own `ensures`.
    open spec fn obeys_try_from_spec() -> bool {
        false
    }

    open spec fn try_from_spec(s: &'a str) -> Result<Myth64, ToleranceError> {
        arbitrary()
    }
}

impl TryFrom<String> for Myth64 {
    type Error = ToleranceError;

    /// Reads a millimeter text, as `Myth64::try_from_str` does.
    fn try_from(s: String) -> (r: Result<Myth64, ToleranceError>)
        ensures
            match Myth64::parse_spec(s@) {
                Ok(t) => r == Ok::<Myth64, ToleranceError>(t),
                Err(e) => r is Err && r->Err_0@ == e,
            },
    {
        Myth64::try_from_str(s.as_str())
    }
}

impl vstd::std_specs::convert::TryFromSpecImpl<String> for Myth64 {
    /// The error holds a `String`, which no spec function can build: the `try_from` above
    /// states its outcome in its own `ensures`.
    open spec fn obeys_try_from_spec() -> bool {
        false
    }

    open spec fn try_from_spec(s: String) -> Result<Myth64, ToleranceError> {
        arbitrary()
    }
}

impl core::str::FromStr for Myth64 {
    type Err = ToleranceError;

    /// Reads a millimeter text, as `Myth64::try_from_str` does.
    fn from_str(s: &str) -> (r: Result<Myth64, ToleranceError>)
        ensures
            match Myth64::parse_spec(s@) {
                Ok(t) => r == Ok::<Myth64, ToleranceError>(t),
                Err(e) => r is Err && r->Err_0@ == e,
            },
    {
        Myth64::try_from_str(s)
    }
}

impl Myth64 {
    /// Every length, shown with four fraction digits, reads back as itself.
    pub proof fn lemma_round_trip(x: Myth64)
        ensures
            Myth64::parse_spec(display_ticks(x.0 as int, Some(4usize), false)) == Ok::<
                Myth64,
                (ErrorKind, Seq<char>),
            >(x),
    {
        lemma_display_parse(x.0 as int, "Myth64"@, i64::MIN as int, i64::MAX as int);
    }

    /// A length plus its negation is zero, wherever the negation exists.
    pub proof fn lemma_add_neg(x: Myth64)
        requires
            x.0 != i64::MIN,
        ensures
            x.neg_req(),
            x.add_req(x.neg_spec()),
            x.add_spec(x.neg_spec()).0 == 0,
    {
    }
}

impl core::ops::Add<i64> for Myth64 {
    type Output = Myth64;

    /// Adds `rhs` ticks.
    ///
    /// Overflow is a contract violation, not a wrap: `add_req` asks that the sum fit.
    fn add(self, rhs: i64) -> (r: Myth64)
        ensures
            r.0 == self.0 + rhs,
    {
        Myth64((self.0 as i128 + rhs as i128) as i64)
    }
}

impl vstd::std_specs::ops::AddSpecImpl<i64> for Myth64 {
    open spec fn obeys_add_spec() -> bool {
        true
    }

    open spec fn add_req(self, rhs: i64) -> bool {
        fits_i64(self.0 + rhs)
    }

    open spec fn add_spec(self, rhs: i64) -> Myth64 {
        Myth64((self.0 + rhs) as i64)
    }
}

impl core::ops::Sub<i64> for Myth64 {
    type Output = Myth64;

    /// Subtracts `rhs` ticks.
    ///
    /// Overflow is a contract violation, not a wrap: `sub_req` asks that the difference fit.
    fn sub(self, rhs: i64) -> (r: Myth64)
        ensures
            r.0 == self.0 - rhs,
    {
        Myth64((self.0 as i128 - rhs as i128) as i64)
    }
}

impl vstd::std_specs::ops::SubSpecImpl<i64> for Myth64 {
    open spec fn obeys_sub_spec() -> bool {
        true
    }

    open spec fn sub_req(self, rhs: i64) -> bool {
        fits_i64(self.0 - rhs)
    }

    open spec fn sub_spec(self, rhs: i64) -> Myth64 {
        Myth64((self.0 - rhs) as i64)
    }
}

impl From<i32> for Myth64 {
    /// `v` ticks.
    fn from(v: i32) -> (r: Myth64)
        ensures
            r.0 == v,
    {
        Myth64(v as i64)
    }
}

impl vstd::std_specs::convert::FromSpecImpl<i32> for Myth64 {
    open spec fn obeys_from_spec() -> bool {
        true
    }

    open spec fn from_spec(v: i32) -> Myth64 {
        Myth64(v as i64)
    }
}

impl From<i16> for Myth64 {
    /// `v` ticks.
    fn from(v: i16) -> (r: Myth64)
        ensures
            r.0 == v,
    {
        Myth64(v as i64)
    }
}

impl vstd::std_specs::convert::FromSpecImpl<i16> for Myth64 {
    open spec fn obeys_from_spec() -> bool {
        true
    }

    open spec fn from_spec(v: i16) -> Myth64 {
        Myth64(v as i64)
    }
}

impl From<i8> for Myth64 {
    /// `v` ticks.
    fn from(v: i8) -> (r: Myth64)
        ensures
            r.0 == v,
    {
        Myth64(v as i64)
    }
}

impl vstd::std_specs::convert::FromSpecImpl<i8> for Myth64 {
    open spec fn obeys_from_spec() -> bool {
        true
    }

    open spec fn from_spec(v: i8) -> Myth64 {
        Myth64(v as i64)
    }
}

impl From<u32> for Myth64 {
    /// `v` ticks.
    fn from(v: u32) -> (r: Myth64)
        ensures
            r.0 == v,
    {
        Myth64(v as i64)
    }
}

impl vstd::std_specs::convert::FromSpecImpl<u32> for Myth64 {
    open spec fn obeys_from_spec() -> bool {
        true
    }

    open spec fn from_spec(v: u32) -> Myth64 {
        Myth64(v as i64)
    }
}

impl From<u16> for Myth64 {
    /// `v` ticks.
    fn from(v: u16) -> (r: Myth64)
        ensures
            r.0 == v,
    {
        Myth64(v as i64)
    }
}

impl vstd::std_specs::convert::FromSpecImpl<u16> for Myth64 {
    open spec fn obeys_from_spec() -> bool {
        true
    }

    open spec fn from_spec(v: u16) -> Myth64 {
        Myth64(v as i64)
    }
}

impl From<u8> for Myth64 {
    /// `v` ticks.
    fn from(v: u8) -> (r: Myth64)
        ensures
            r.0 == v,
    {
        Myth64(v as i64)
    }
}

impl vstd::std_specs::convert::FromSpecImpl<u8> for Myth64 {
    open spec fn obeys_from_spec() -> bool {
        true
    }

    open spec fn from_spec(v: u8) -> Myth64 {
        Myth64(v as i64)
    }
}

impl Myth64 {
    /// Adds `rhs` in place, as `+=` would.
    pub fn add_assign(&mut self, rhs: Myth64)
        requires
            fits_i64(old(self).0 + rhs.0),
        ensures
            final(self).0 == old(self).0 + rhs.0,
    {
        self.0 = self.0 + rhs.0;
    }

    /// Subtracts `rhs` in place, as `-=` would.
    pub fn sub_assign(&mut self, rhs: Myth64)
        requires
            fits_i64(old(self).0 - rhs.0),
        ensures
            final(self).0 == old(self).0 - rhs.0,
    {
        self.0 = self.0 - rhs.0;
    }
}

} // verus!
