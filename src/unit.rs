use vstd::prelude::*;

verus! {

/// Ten to the power of `p`.
pub open spec fn pow10(p: nat) -> int
    decreases p,
{
    if p == 0 {
        1
    } else {
        10 * pow10((p - 1) as nat)
    }
}

/// Every power of ten is positive and grows with its exponent.
pub proof fn lemma_pow10_positive(p: nat)
    ensures
        pow10(p) >= 1,
    decreases p,
{
    if p > 0 {
        lemma_pow10_positive((p - 1) as nat);
    }
}

/// A conversion factor from a length unit into ticks (a tick is a tenth of a micrometer).
#[derive(Copy, Clone, Debug, Ord, PartialOrd, Eq, PartialEq, Structural)]
pub struct Unit(pub i64);

impl Unit {
    /// Micrometer, `1 μ = 10` ticks.
    #[allow(non_snake_case)]
    pub fn MY() -> (r: Unit)
        ensures
            r.0 == 10,
    {
        Unit(10)
    }

    /// Millimeter, `1 mm = 1_000 μ`.
    #[allow(non_snake_case)]
    pub fn MM() -> (r: Unit)
        ensures
            r.0 == 10_000,
    {
        Unit(10_000)
    }

    /// Centimeter, `1 cm = 10 mm`.
    #[allow(non_snake_case)]
    pub fn CM() -> (r: Unit)
        ensures
            r.0 == 100_000,
    {
        Unit(100_000)
    }

    /// Inch, `1 in = 25.4 mm`.
    #[allow(non_snake_case)]
    pub fn INCH() -> (r: Unit)
        ensures
            r.0 == 254_000,
    {
        Unit(254_000)
    }

    /// Foot, `1 ft = 12 in`.
    #[allow(non_snake_case)]
    pub fn FT() -> (r: Unit)
        ensures
            r.0 == 3_048_000,
    {
        Unit(3_048_000)
    }

    /// Yard, `1 yd = 3 ft`.
    #[allow(non_snake_case)]
    pub fn YD() -> (r: Unit)
        ensures
            r.0 == 9_144_000,
    {
        Unit(9_144_000)
    }

    /// Meter, `1 m = 1_000 mm`.
    #[allow(non_snake_case)]
    pub fn METER() -> (r: Unit)
        ensures
            r.0 == 10_000_000,
    {
        Unit(10_000_000)
    }

    /// Kilometer, `1 km = 1_000 m`.
    #[allow(non_snake_case)]
    pub fn KM() -> (r: Unit)
        ensures
            r.0 == 10_000_000_000,
    {
        Unit(10_000_000_000)
    }

    /// Mile, `1 mi = 1760 yd`.
    #[allow(non_snake_case)]
    pub fn MILE() -> (r: Unit)
        ensures
            r.0 == 16_093_440_000,
    {
        Unit(16_093_440_000)
    }

    /// The number of ticks in this unit.
    pub fn multiply(&self) -> (r: i64)
        ensures
            r == self.0,
    {
        self.0
    }

    /// Ten to the power of `p` ticks.
    pub fn potency(p: usize) -> (r: Unit)
        requires
            p <= 18,
        ensures
            r.0 == pow10(p as nat),
    {
        let mut acc: i64 = 1;
        let mut i: usize = 0;
        while i < p
            invariant
                i <= p <= 18,
                acc == pow10(i as nat),
            decreases p - i,
        {
            proof {
                lemma_pow10_bound((i + 1) as nat);
                assert(pow10((i + 1) as nat) == 10 * pow10(i as nat));
            }
            acc = acc * 10;
            i = i + 1;
        }
        Unit(acc)
    }
}

impl core::ops::Mul<i64> for Unit {
    type Output = Unit;

    /// `rhs` of this unit, as a unit of its own.
    ///
    /// Overflow is a contract violation, not a wrap: `mul_req` asks that the product fit.
    fn mul(self, rhs: i64) -> (r: Unit)
        ensures
            r.0 == self.0 * rhs,
    {
        Unit(self.0 * rhs)
    }
}

impl vstd::std_specs::ops::MulSpecImpl<i64> for Unit {
    open spec fn obeys_mul_spec() -> bool {
        true
    }

    open spec fn mul_req(self, rhs: i64) -> bool {
        i64::MIN <= self.0 * rhs <= i64::MAX
    }

    open spec fn mul_spec(self, rhs: i64) -> Unit {
        Unit((self.0 * rhs) as i64)
    }
}

impl core::ops::Mul<Unit> for i64 {
    type Output = i64;

    /// The ticks in `self` of `rhs`.
    ///
    /// Overflow is a contract violation, not a wrap: `mul_req` asks that the product fit.
    fn mul(self, rhs: Unit) -> (r: i64)
        ensures
            r == self * rhs.0,
    {
        self * rhs.0
    }
}

impl vstd::std_specs::ops::MulSpecImpl<Unit> for i64 {
    open spec fn obeys_mul_spec() -> bool {
        true
    }

    open spec fn mul_req(self, rhs: Unit) -> bool {
        i64::MIN <= self * rhs.0 <= i64::MAX
    }

    open spec fn mul_spec(self, rhs: Unit) -> i64 {
        (self * rhs.0) as i64
    }
}

impl From<Unit> for i64 {
    /// The ticks in the unit.
    fn from(u: Unit) -> (r: i64)
        ensures
            r == u.0,
    {
        u.0
    }
}

impl vstd::std_specs::convert::FromSpecImpl<Unit> for i64 {
    open spec fn obeys_from_spec() -> bool {
        true
    }

    open spec fn from_spec(u: Unit) -> i64 {
        u.0
    }
}

/// Powers of ten grow with their exponent.
pub proof fn lemma_pow10_monotone(p: nat, q: nat)
    requires
        p <= q,
    ensures
        1 <= pow10(p) <= pow10(q),
    decreases q,
{
    lemma_pow10_positive(q);
    if p < q {
        lemma_pow10_monotone(p, (q - 1) as nat);
    }
}

/// The powers of ten up to the eighteenth fit into an `i64`.
pub proof fn lemma_pow10_bound(p: nat)
    requires
        p <= 18,
    ensures
        1 <= pow10(p) <= 1_000_000_000_000_000_000,
{
    reveal_with_fuel(pow10, 19);
    lemma_pow10_monotone(p, 18);
}

} // verus!
