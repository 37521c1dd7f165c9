use vstd::arithmetic::div_mod::{
    lemma_mod_bound,
    lemma_div_by_multiple, lemma_div_is_ordered, lemma_div_pos_is_pos,
    lemma_fundamental_div_mod,
};
use vstd::arithmetic::mul::{lemma_mul_inequality, lemma_mul_is_distributive_sub, lemma_mul_nonnegative};
use vstd::prelude::*;

verus! {

/// Largest amount (in millionths of a unit) that the conversion routines
/// accept: one million whole units of any supported unit.
pub const MAX_AMOUNT: u64 = 1_000_000_000_000;

/// A tagged volume quantity.  The payload counts millionths of the unit,
/// so `GallonUS(5_000_000)` is five US gallons.  `Lb` is a weight used for
/// CO2-tank capacities; it takes part in no liquid arithmetic.
#[derive(Clone, Copy, Debug, PartialEq, Eq, Structural)]
pub enum Volume {
    BeerBarrel(u64),
    GallonUS(u64),
    GallonUSDry(u64),
    GallonImperial(u64),
    Liter(u64),
    Lb(u64),
}

impl Volume {
    /// The raw amount, in millionths of the carried unit.
    pub open spec fn amount_spec(self) -> int {
        match self {
            Volume::BeerBarrel(x) => x as int,
            Volume::GallonUS(x) => x as int,
            Volume::GallonUSDry(x) => x as int,
            Volume::GallonImperial(x) => x as int,
            Volume::Liter(x) => x as int,
            Volume::Lb(x) => x as int,
        }
    }

    /// True for every unit that measures liquid volume (everything but `Lb`).
    pub open spec fn is_liquid(self) -> bool {
        !(self is Lb)
    }

    /// Numerator of the exact litres-per-unit ratio.
    pub open spec fn factor_num(self) -> int {
        match self {
            Volume::BeerBarrel(_) => 117_348,
            Volume::GallonUS(_) => 3_785_411_784,
            Volume::GallonUSDry(_) => 440_488_377_086,
            Volume::GallonImperial(_) => 454_609,
            Volume::Liter(_) => 1,
            Volume::Lb(_) => 1,
        }
    }

    /// Denominator of the exact litres-per-unit ratio.
    pub open spec fn factor_den(self) -> int {
        match self {
            Volume::BeerBarrel(_) => 1_000,
            Volume::GallonUS(_) => 1_000_000_000,
            Volume::GallonUSDry(_) => 100_000_000_000,
            Volume::GallonImperial(_) => 100_000,
            Volume::Liter(_) => 1,
            Volume::Lb(_) => 1,
        }
    }

    /// The volume in microlitres, rounded down.
    pub open spec fn microliters_spec(self) -> int {
        self.amount_spec() * self.factor_num() / self.factor_den()
    }

    /// Amount (in millionths of the unit of `self`) that `ml` microlitres make.
    pub open spec fn amount_of_microliters(self, ml: int) -> int {
        ml * self.factor_den() / self.factor_num()
    }

    /// The canonical measure: microlitres, computed exactly in integers.
    /// The domain is every liquid volume of at most 1.2 * 10^14
    /// microlitres, which admits any in-range volume of any unit and the
    /// litre values such volumes convert to.
    pub fn microliters(&self) -> (r: u64)
        requires
            self.is_liquid(),
            self.microliters_spec() <= 120_000_000_000_000,
        ensures
            r == self.microliters_spec(),
            r <= 120_000_000_000_000u64,
    {
        proof {
            lemma_mul_nonnegative(self.amount_spec(), self.factor_num());
            lemma_div_pos_is_pos(
                self.amount_spec() * self.factor_num(),
                self.factor_den(),
            );
        }
        match self {
            Volume::BeerBarrel(x) => ((*x as u128) * 117_348 / 1_000) as u64,
            Volume::GallonUS(x) => ((*x as u128) * 3_785_411_784 / 1_000_000_000) as u64,
            Volume::GallonUSDry(x) => ((*x as u128) * 440_488_377_086 / 100_000_000_000) as u64,
            Volume::GallonImperial(x) => ((*x as u128) * 454_609 / 100_000) as u64,
            Volume::Liter(x) => *x,
            Volume::Lb(x) => *x,
        }
    }
}

impl Volume {
    /// The volume expressed in litres, exact to the microlitre (rounded down).
    pub fn to_liter(&self) -> (r: Volume)
        requires
            self.is_liquid(),
            self.microliters_spec() <= 120_000_000_000_000,
        ensures
            r is Liter,
            r.amount_spec() == self.microliters_spec(),
    {
        Volume::Liter(self.microliters())
    }

    /// The volume expressed in US gallons, rounded down to a millionth.
    pub fn to_gallon_us(&self) -> (r: Volume)
        requires
            self.is_liquid(),
            self.microliters_spec() <= 120_000_000_000_000,
        ensures
            r is GallonUS,
            r.amount_spec() == r.amount_of_microliters(self.microliters_spec()),
    {
        let ml = self.microliters();
        proof {
            lemma_back_conversion_bounds(ml as int, 3_785_411_784, 1_000_000_000);
        }
        Volume::GallonUS(((ml as u128) * 1_000_000_000 / 3_785_411_784) as u64)
    }

    /// The volume expressed in US dry gallons, rounded down to a millionth.
    pub fn to_gallon_us_dry(&self) -> (r: Volume)
        requires
            self.is_liquid(),
            self.microliters_spec() <= 120_000_000_000_000,
        ensures
            r is GallonUSDry,
            r.amount_spec() == r.amount_of_microliters(self.microliters_spec()),
    {
        let ml = self.microliters();
        proof {
            lemma_back_conversion_bounds(ml as int, 440_488_377_086, 100_000_000_000);
        }
        Volume::GallonUSDry(((ml as u128) * 100_000_000_000 / 440_488_377_086) as u64)
    }

    /// The volume expressed in imperial gallons, rounded down to a millionth.
    pub fn to_gallon_imperial(&self) -> (r: Volume)
        requires
            self.is_liquid(),
            self.microliters_spec() <= 120_000_000_000_000,
        ensures
            r is GallonImperial,
            r.amount_spec() == r.amount_of_microliters(self.microliters_spec()),
    {
        let ml = self.microliters();
        proof {
            lemma_back_conversion_bounds(ml as int, 454_609, 100_000);
        }
        Volume::GallonImperial(((ml as u128) * 100_000 / 454_609) as u64)
    }

    /// The volume expressed in beer barrels, rounded down to a millionth.
    pub fn to_bbl(&self) -> (r: Volume)
        requires
            self.is_liquid(),
            self.microliters_spec() <= 120_000_000_000_000,
        ensures
            r is BeerBarrel,
            r.amount_spec() == r.amount_of_microliters(self.microliters_spec()),
    {
        let ml = self.microliters();
        proof {
            lemma_back_conversion_bounds(ml as int, 117_348, 1_000);
        }
        Volume::BeerBarrel(((ml as u128) * 1_000 / 117_348) as u64)
    }

    /// Number of whole litres, rounded to the nearest (half rounds up).
    pub open spec fn liters_rounded_spec(self) -> int {
        (self.microliters_spec() + 500_000) / 1_000_000
    }

    /// Whole litres, rounded to the nearest litre.
    pub fn liters_rounded(&self) -> (r: u64)
        requires
            self.is_liquid(),
            self.microliters_spec() <= 120_000_000_000_000,
        ensures
            r == self.liters_rounded_spec(),
            r <= 120_000_001_000u64,
    {
        let ml = self.microliters();
        proof {
            lemma_div_is_ordered(
                ml + 500_000,
                120_000_000_500_000,
                1_000_000,
            );
        }
        (ml + 500_000) / 1_000_000
    }

    /// Ceiling division, the number of batches of size `b` that cover `a`.
    pub open spec fn ceil_div(a: int, b: int) -> int {
        (a + b - 1) / b
    }

    /// How many full batches of `batch_size` cover `self`, rounding up in
    /// the canonical (microlitre) domain.
    pub fn full_batches(&self, batch_size: &Volume) -> (r: usize)
        requires
            self.is_liquid(),
            batch_size.is_liquid(),
            self.microliters_spec() <= 120_000_000_000_000,
            batch_size.microliters_spec() <= 120_000_000_000_000,
            batch_size.microliters_spec() > 0,
            Self::ceil_div(self.microliters_spec(), batch_size.microliters_spec())
                <= usize::MAX,
        ensures
            r == Self::ceil_div(self.microliters_spec(), batch_size.microliters_spec()),
    {
        let need = self.microliters();
        let size = batch_size.microliters();
        proof {
            lemma_div_pos_is_pos(need as int + size - 1, size as int);
        }
        (((need + size) - 1) / size) as usize
    }

    /// Whether `self` holds at least as much liquid as `other`.
    pub fn ge(&self, other: &Volume) -> (r: bool)
        requires
            self.is_liquid(),
            other.is_liquid(),
            self.microliters_spec() <= 120_000_000_000_000,
            other.microliters_spec() <= 120_000_000_000_000,
        ensures
            r == (self.microliters_spec() >= other.microliters_spec()),
    {
        self.microliters() >= other.microliters()
    }
}

/// For nonnegative microlitres up to the conversion cap, turning them back
/// into a unit whose litres-per-unit ratio n/d satisfies d <= n gives a
/// result no larger than the input, hence fitting u64.
proof fn lemma_back_conversion_bounds(ml: int, n: int, d: int)
    requires
        0 <= ml <= 120_000_000_000_000,
        1 <= d <= n,
    ensures
        0 <= ml * d / n <= 120_000_000_000_000,
{
    lemma_mul_nonnegative(ml, d);
    lemma_div_pos_is_pos(ml * d, n);
    lemma_mul_inequality(d, n, ml);
    assert(ml * d <= ml * n) by {
        lemma_mul_inequality(d, n, ml);
        vstd::arithmetic::mul::lemma_mul_is_commutative(d, ml);
        vstd::arithmetic::mul::lemma_mul_is_commutative(n, ml);
    }
    lemma_div_is_ordered(ml * d, ml * n, n);
    lemma_div_by_multiple(ml, n);
}

/// Full-batch law: for a positive batch size, `full_batches` many
/// batches cover the need, and one batch fewer would fall short.
pub proof fn lemma_full_batches_covers(need: int, size: int)
    requires
        need >= 0,
        size > 0,
    ensures
        Volume::ceil_div(need, size) * size >= need,
        (Volume::ceil_div(need, size) - 1) * size < need,
{
    let n = Volume::ceil_div(need, size);
    lemma_fundamental_div_mod(need + size - 1, size);
    lemma_mod_bound(need + size - 1, size);
    assert(size * n == need + size - 1 - ((need + size - 1) % size));
    assert(n * size == size * n) by {
        vstd::arithmetic::mul::lemma_mul_is_commutative(n, size);
    }
    assert((n - 1) * size == n * size - size) by {
        lemma_mul_is_distributive_sub(size, n, 1);
        vstd::arithmetic::mul::lemma_mul_is_commutative(size, n);
        vstd::arithmetic::mul::lemma_mul_is_commutative(size, n - 1);
    }
}

/// Bounds that every in-range liquid volume obeys in the canonical
/// measures.
pub proof fn lemma_microliters_bound(v: Volume)
    requires
        v.is_liquid(),
        0 <= v.amount_spec() <= MAX_AMOUNT,
    ensures
        0 <= v.microliters_spec() <= 120_000_000_000_000,
        0 <= v.liters_rounded_spec() <= 200_000_000,
{
    lemma_mul_div_bounds(v.amount_spec(), v.factor_num(), v.factor_den());
    lemma_div_is_ordered(
        v.microliters_spec() + 500_000,
        120_000_000_500_000,
        1_000_000,
    );
    lemma_div_pos_is_pos(v.microliters_spec() + 500_000, 1_000_000);
}

/// Round-trip law: converting a liquid volume to litres and back to its own
/// unit loses at most one millionth of the unit, and never gains.  For any
/// amount of a whole unit or more, the result is thus within one part per
/// million of the original.
pub proof fn lemma_volume_round_trip(v: Volume)
    requires
        v.is_liquid(),
    ensures
        v.amount_spec() - 1 <= v.amount_of_microliters(v.microliters_spec()),
        v.amount_of_microliters(v.microliters_spec()) <= v.amount_spec(),
{
    lemma_floor_mul_div(v.amount_spec(), v.factor_num(), v.factor_den());
}

/// Scaling a nonnegative integer by n/d (rounding down) and back by d/n
/// (rounding down) gives back a value in [a - 1, a] whenever d <= n.
proof fn lemma_floor_mul_div(a: int, n: int, d: int)
    requires
        0 <= a,
        1 <= d <= n,
    ensures
        a - 1 <= (a * n / d) * d / n <= a,
{
    let y = a * n / d;
    let r = y * d / n;
    lemma_mul_nonnegative(a, n);
    lemma_div_pos_is_pos(a * n, d);
    lemma_fundamental_div_mod(a * n, d);
    lemma_mod_bound(a * n, d);
    // y * d is within (a*n - d, a*n]
    assert(d * y <= a * n);
    assert(d * y >= a * n - d + 1);
    vstd::arithmetic::mul::lemma_mul_is_commutative(d, y);
    // upper bound: r <= a*n/n == a
    lemma_div_is_ordered(y * d, a * n, n);
    lemma_div_by_multiple(a, n);
    vstd::arithmetic::mul::lemma_mul_is_commutative(a, n);
    assert(r <= a);
    // lower bound
    if a == 0 {
        lemma_mul_nonnegative(y, d);
        lemma_div_pos_is_pos(y * d, n);
    } else {
        assert((a - 1) * n == a * n - n) by {
            lemma_mul_is_distributive_sub(n, a, 1);
            vstd::arithmetic::mul::lemma_mul_is_commutative(n, a);
            vstd::arithmetic::mul::lemma_mul_is_commutative(n, a - 1);
        }
        assert((a - 1) * n + 1 <= y * d);
        lemma_div_is_ordered((a - 1) * n + 1, y * d, n);
        lemma_fundamental_div_mod((a - 1) * n + 1, n);
        lemma_mod_bound((a - 1) * n + 1, n);
        lemma_div_by_multiple(a - 1, n);
        assert(((a - 1) * n + 1) / n >= a - 1) by {
            lemma_div_is_ordered((a - 1) * n, (a - 1) * n + 1, n);
        }
        assert(r >= a - 1);
    }
}

/// For 0 <= a <= MAX_AMOUNT and a ratio n/d with 1 <= d <= n <= 441 * d,
/// the product a * n / d stays below 1.2e14 and is monotone in a.
proof fn lemma_mul_div_bounds(a: int, n: int, d: int)
    requires
        0 <= a <= MAX_AMOUNT,
        1 <= d <= n,
        n <= 120 * d,
    ensures
        0 <= a * n / d <= 120_000_000_000_000,
{
    lemma_mul_inequality(a, MAX_AMOUNT as int, n);
    lemma_div_is_ordered(a * n, MAX_AMOUNT as int * n, d);
    assert(MAX_AMOUNT as int * n / d <= 120_000_000_000_000) by {
        lemma_mul_inequality(n, 120 * d, MAX_AMOUNT as int);
        lemma_div_is_ordered(MAX_AMOUNT as int * n, MAX_AMOUNT as int * 120 * d, d);
        assert(MAX_AMOUNT as int * n <= MAX_AMOUNT as int * (120 * d)) by {
            lemma_mul_inequality(n, 120 * d, MAX_AMOUNT as int);
        }
        assert(MAX_AMOUNT as int * 120 * d / d == MAX_AMOUNT as int * 120) by {
            vstd::arithmetic::div_mod::lemma_div_by_multiple(MAX_AMOUNT as int * 120, d);
        }
    }
    vstd::arithmetic::div_mod::lemma_div_pos_is_pos(a * n, d);
    vstd::arithmetic::mul::lemma_mul_nonnegative(a, n);
}

} // verus!
