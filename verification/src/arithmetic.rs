//! Fixed point numbers, parts of a whole, and the integer operations that the
//! pallets compute with.

use vstd::prelude::*;
use crate::substrate;

verus! {

/// One, as the inner value of a fixed point number with eighteen decimals.
pub const DIV: u128 = 1_000_000_000_000_000_000;

/// The parts of a whole of a [`Permill`].
pub const PERMILL: u32 = 1_000_000;

/// The parts of a whole of a [`Perbill`].
pub const PERBILL: u32 = 1_000_000_000;

/// `x` as a `u128`, where it fits.
pub open spec fn bounded(x: int) -> Option<u128> {
    if 0 <= x <= u128::MAX {
        Some(x as u128)
    } else {
        None
    }
}

/// `x`, or the largest `u128` where it does not fit.
pub open spec fn saturated(x: int) -> u128
    recommends
        0 <= x,
{
    if x <= u128::MAX {
        x as u128
    } else {
        u128::MAX
    }
}

/// The product of two fixed point numbers, or of one and an integer, on inner values.
pub open spec fn fixed_mul(a: u128, b: u128) -> Option<u128> {
    bounded(a * b / (DIV as int))
}

/// The quotient of two fixed point numbers, on inner values.
pub open spec fn fixed_div(a: u128, b: u128) -> Option<u128> {
    if b == 0 {
        None
    } else {
        bounded(a * DIV / (b as int))
    }
}

/// `parts`, but no more than the whole.
pub open spec fn capped(parts: u32, whole: u32) -> int {
    if parts <= whole {
        parts as int
    } else {
        whole as int
    }
}

/// `parts` of `whole` of `n`, rounded down.
pub open spec fn part_floor(parts: u32, whole: u32, n: u128) -> int {
    n * capped(parts, whole) / (whole as int)
}

/// `parts` of `whole` of `n`, rounded up.
pub open spec fn part_ceil(parts: u32, whole: u32, n: u128) -> int {
    (n * capped(parts, whole) + whole - 1) / (whole as int)
}

/// `n` divided by `parts` of `whole`, to the nearest integer, as far as it fits.
pub open spec fn part_reciprocal(parts: u32, whole: u32, n: u128) -> u128
    recommends
        parts > 0,
{
    saturated((2 * n * whole + capped(parts, whole)) / (2 * capped(parts, whole)))
}

/// A part of an amount is at most the amount.
pub proof fn lemma_part_fits(parts: u32, whole: u32, n: u128)
    requires
        whole > 0,
    ensures
        0 <= part_floor(parts, whole, n) <= part_ceil(parts, whole, n) <= n,
{
    let c = capped(parts, whole);
    let p = n * c;
    let w = whole as int;
    assert(0 <= p <= n * w) by (nonlinear_arith)
        requires
            0 <= c <= w,
            p == n * c,
    ;
    assert(0 <= p / w <= (p + w - 1) / w <= n) by (nonlinear_arith)
        requires
            0 <= p <= n * w,
            w > 0,
    ;
}

/// Whether `r` is the largest integer whose square is at most `n`.
pub open spec fn is_root(r: int, n: int) -> bool {
    0 <= r && r * r <= n < (r + 1) * (r + 1)
}

/// The largest integer whose square is at most `n`.
pub open spec fn root(n: int) -> int
    recommends
        0 <= n,
{
    choose|r: int| is_root(r, n)
}

/// There is one such integer.
pub proof fn lemma_root(r: int, n: int)
    requires
        is_root(r, n),
    ensures
        root(n) == r,
{
    let s = root(n);
    assert(is_root(s, n));
    if r < s {
        assert((r + 1) * (r + 1) <= s * s) by (nonlinear_arith)
            requires
                0 <= r < s,
        ;
    }
    if s < r {
        assert((s + 1) * (s + 1) <= r * r) by (nonlinear_arith)
            requires
                0 <= s < r,
        ;
    }
}

/// Whether `q` is `n` divided by `d`, rounded down.
pub open spec fn is_floor(q: int, n: int, d: int) -> bool {
    0 < d && q * d <= n < (q + 1) * d
}

/// Whether `q` is `n` divided by `d`, rounded up.
pub open spec fn is_ceil(q: int, n: int, d: int) -> bool {
    0 < d && (q - 1) * d < n <= q * d
}

/// Division rounds down.
pub proof fn lemma_floor(n: int, d: int)
    requires
        0 < d,
    ensures
        is_floor(n / d, n, d),
        0 <= n ==> 0 <= n / d,
{
    vstd::arithmetic::div_mod::lemma_fundamental_div_mod(n, d);
    let q = n / d;
    assert(q * d == d * q && (q + 1) * d == d * q + d) by (nonlinear_arith);
    assert(0 <= n ==> 0 <= q) by (nonlinear_arith)
        requires
            0 < d,
            q == n / d,
    ;
}

/// There is one quotient that is rounded down.
pub proof fn lemma_floor_is_unique(a: int, b: int, n: int, d: int)
    requires
        is_floor(a, n, d),
        is_floor(b, n, d),
    ensures
        a == b,
{
    assert(a == b) by (nonlinear_arith)
        requires
            0 < d,
            a * d <= n < (a + 1) * d,
            b * d <= n < (b + 1) * d,
    ;
}

/// A product of fixed point numbers is the exact product, rounded down. There is
/// one exactly where that fits.
pub proof fn law_fixed_product(a: u128, b: u128)
    ensures
        fixed_mul(a, b) matches Some(q) ==> is_floor(q as int, a * b, DIV as int),
        fixed_mul(a, b) is None <==> a * b >= (u128::MAX + 1) * DIV,
{
    let n = a * b;
    assert(0 <= n) by (nonlinear_arith)
        requires
            n == a * b,
    ;
    lemma_floor(n, DIV as int);
}

/// A quotient of fixed point numbers is the exact quotient, rounded down. There is
/// one exactly where the divisor is not nought and that fits.
pub proof fn law_fixed_quotient(a: u128, b: u128)
    ensures
        fixed_div(a, b) matches Some(q) ==> is_floor(q as int, a * DIV, b as int),
        fixed_div(a, b) is None <==> b == 0 || a * DIV >= (u128::MAX + 1) * b,
{
    if b > 0 {
        let (n, d, m) = (a * DIV, b as int, u128::MAX + 1);
        lemma_floor(n, d);
        let q = n / d;
        assert(q >= m <==> n >= m * d) by (nonlinear_arith)
            requires
                0 < d,
                q * d <= n < (q + 1) * d,
        ;
    }
}

/// A part of an amount is the exact part, rounded down or up.
pub proof fn law_part(parts: u32, whole: u32, n: u128)
    requires
        whole > 0,
    ensures
        is_floor(part_floor(parts, whole, n), n * capped(parts, whole), whole as int),
        is_ceil(part_ceil(parts, whole, n), n * capped(parts, whole), whole as int),
{
    let (p, w) = (n * capped(parts, whole), whole as int);
    lemma_floor(p, w);
    lemma_floor(p + w - 1, w);
    let q = (p + w - 1) / w;
    assert((q - 1) * w == q * w - w && (q + 1) * w == q * w + w) by (nonlinear_arith);
}

/// A non-negative number with eighteen decimals.
#[derive(Debug, Clone, Copy, PartialEq, Eq, Structural)]
pub struct FixedU128 {
    /// The number times ten to the eighteenth.
    pub inner: u128,
}

impl FixedU128 {
    /// The number with the given inner value.
    pub fn from_inner(inner: u128) -> (r: Self)
        ensures
            r.inner == inner,
    {
        FixedU128 { inner }
    }

    /// The inner value.
    pub fn into_inner(self) -> (inner: u128)
        ensures
            inner == self.inner,
    {
        self.inner
    }

    /// The integer `n`, or the largest number where it does not fit.
    pub fn saturating_from_integer(n: u128) -> (r: Self)
        ensures
            r.inner == saturated(n * DIV),
    {
        FixedU128 { inner: saturating_mul(n, DIV) }
    }

    /// Nought.
    pub fn zero() -> (r: Self)
        ensures
            r.inner == 0,
    {
        FixedU128 { inner: 0 }
    }

    /// Whether this is nought.
    pub fn is_zero(&self) -> (b: bool)
        ensures
            b == (self.inner == 0),
    {
        self.inner == 0
    }

    /// The sum, where it fits.
    pub fn checked_add(&self, other: &Self) -> (r: Option<Self>)
        ensures
            r == (match bounded(self.inner + other.inner) {
                Some(inner) => Some(FixedU128 { inner }),
                None => None,
            }),
    {
        match self.inner.checked_add(other.inner) {
            Some(inner) => Some(FixedU128 { inner }),
            None => None,
        }
    }

    /// The difference, where it is not negative.
    pub fn checked_sub(&self, other: &Self) -> (r: Option<Self>)
        ensures
            r == (match bounded(self.inner - other.inner) {
                Some(inner) => Some(FixedU128 { inner }),
                None => None,
            }),
    {
        match self.inner.checked_sub(other.inner) {
            Some(inner) => Some(FixedU128 { inner }),
            None => None,
        }
    }

    /// The product, rounded down, where it fits.
    pub fn checked_mul(&self, other: &Self) -> (r: Option<Self>)
        ensures
            r == (match fixed_mul(self.inner, other.inner) {
                Some(inner) => Some(FixedU128 { inner }),
                None => None,
            }),
    {
        match substrate::fixed_checked_mul(self.inner, other.inner) {
            Some(inner) => Some(FixedU128 { inner }),
            None => None,
        }
    }

    /// The quotient, rounded down, where the divisor is not nought and it fits.
    pub fn checked_div(&self, other: &Self) -> (r: Option<Self>)
        ensures
            r == (match fixed_div(self.inner, other.inner) {
                Some(inner) => Some(FixedU128 { inner }),
                None => None,
            }),
    {
        match substrate::fixed_checked_div(self.inner, other.inner) {
            Some(inner) => Some(FixedU128 { inner }),
            None => None,
        }
    }

    /// The product with an integer, rounded down to an integer, where it fits.
    pub fn checked_mul_int(&self, n: u128) -> (r: Option<u128>)
        ensures
            r == fixed_mul(self.inner, n),
    {
        substrate::fixed_checked_mul_int(self.inner, n)
    }
}

/// A part of a whole, in millionths. More than a million counts as a million.
#[derive(Debug, Clone, Copy, PartialEq, Eq, Structural)]
pub struct Permill {
    /// The number of millionths.
    pub parts: u32,
}

impl Permill {
    /// The given number of millionths, but no more than the whole.
    pub fn from_parts(parts: u32) -> (r: Self)
        ensures
            r.parts == capped(parts, PERMILL),
    {
        if parts > PERMILL {
            Permill { parts: PERMILL }
        } else {
            Permill { parts }
        }
    }

    /// This part of `n`, rounded down.
    pub fn mul_floor(&self, n: u128) -> (r: u128)
        ensures
            r == part_floor(self.parts, PERMILL, n),
    {
        substrate::permill_mul_floor(self.parts, n)
    }

    /// This part of `n`, rounded up.
    pub fn mul_ceil(&self, n: u128) -> (r: u128)
        ensures
            r == part_ceil(self.parts, PERMILL, n),
    {
        substrate::permill_mul_ceil(self.parts, n)
    }
}

/// A part of a whole, in billionths. More than a billion counts as a billion.
#[derive(Debug, Clone, Copy, PartialEq, Eq, Structural)]
pub struct Perbill {
    /// The number of billionths.
    pub parts: u32,
}

impl Perbill {
    /// The given number of billionths, but no more than the whole.
    pub fn from_parts(parts: u32) -> (r: Self)
        ensures
            r.parts == capped(parts, PERBILL),
    {
        if parts > PERBILL {
            Perbill { parts: PERBILL }
        } else {
            Perbill { parts }
        }
    }

    /// This part of `n`, rounded down.
    pub fn mul_floor(&self, n: u128) -> (r: u128)
        ensures
            r == part_floor(self.parts, PERBILL, n),
    {
        substrate::perbill_mul_floor(self.parts, n)
    }

    /// `n` divided by this part, to the nearest integer, as far as it fits.
    pub fn saturating_reciprocal_mul(&self, n: u128) -> (r: u128)
        requires
            self.parts > 0,
        ensures
            r == part_reciprocal(self.parts, PERBILL, n),
    {
        substrate::perbill_saturating_reciprocal_mul(self.parts, n)
    }
}

/// The product, or the largest `u128` where it does not fit.
pub fn saturating_mul(a: u128, b: u128) -> (r: u128)
    ensures
        r == saturated(a * b),
{
    match a.checked_mul(b) {
        Some(r) => r,
        None => u128::MAX,
    }
}

} // verus!
