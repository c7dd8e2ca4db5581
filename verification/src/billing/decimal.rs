//! Decimal amounts: a signed 96-bit mantissa and a scale of at most 28
//! decimal places, with arithmetic carried out by `rust_decimal`.

use vstd::prelude::*;
use vstd::std_specs::cmp::PartialEqSpecImpl;

verus! {

/// The largest mantissa magnitude, `2^96 - 1`.
pub open spec fn max_mantissa() -> int {
    79228162514264337593543950335
}

/// A mantissa and scale that a decimal can hold.
pub open spec fn valid_decimal(m: i128, s: u32) -> bool {
    -max_mantissa() <= m <= max_mantissa() && s <= 28
}

/// `10^n`.
pub open spec fn pow10(n: nat) -> int
    decreases n,
{
    if n == 0 { 1 } else { 10 * pow10((n - 1) as nat) }
}

/// Two (mantissa, scale) pairs denote the same number:
/// `a.0 / 10^a.1 == b.0 / 10^b.1`.
pub open spec fn same_value(a: (i128, u32), b: (i128, u32)) -> bool {
    a.0 * pow10(b.1 as nat) == b.0 * pow10(a.1 as nat)
}

/// The (mantissa, scale) of `rust_decimal`'s `checked_mul` of two decimals,
/// or `None` when it reports overflow.
pub uninterp spec fn decimal_product(am: i128, ascale: u32, bm: i128, bscale: u32) -> Option<(i128, u32)>;

/// The (mantissa, scale) of `rust_decimal`'s `checked_add` of two decimals,
/// or `None` when it reports overflow.
pub uninterp spec fn decimal_sum(am: i128, ascale: u32, bm: i128, bscale: u32) -> Option<(i128, u32)>;

/// Calls `rust_decimal::Decimal::checked_mul` on the two decimals.
/// Claimed: the result is `decimal_product` of the arguments, and a result is
/// a valid decimal (the crate keeps a 96-bit mantissa and a scale of at most 28).
#[verifier::external_body]
fn rd_checked_mul(am: i128, ascale: u32, bm: i128, bscale: u32) -> (r: Option<(i128, u32)>)
    requires
        valid_decimal(am, ascale),
        valid_decimal(bm, bscale),
    ensures
        r == decimal_product(am, ascale, bm, bscale),
        r matches Some(p) ==> valid_decimal(p.0, p.1),
{
    let a = rust_decimal::Decimal::from_i128_with_scale(am, ascale);
    let b = rust_decimal::Decimal::from_i128_with_scale(bm, bscale);
    match a.checked_mul(b) {
        Some(c) => Some((c.mantissa(), c.scale())),
        None => None,
    }
}

/// Calls `rust_decimal::Decimal::checked_add` on the two decimals.
/// Claimed: the result is `decimal_sum` of the arguments, and a result is a
/// valid decimal (the crate keeps a 96-bit mantissa and a scale of at most 28).
#[verifier::external_body]
fn rd_checked_add(am: i128, ascale: u32, bm: i128, bscale: u32) -> (r: Option<(i128, u32)>)
    requires
        valid_decimal(am, ascale),
        valid_decimal(bm, bscale),
    ensures
        r == decimal_sum(am, ascale, bm, bscale),
        r matches Some(p) ==> valid_decimal(p.0, p.1),
{
    let a = rust_decimal::Decimal::from_i128_with_scale(am, ascale);
    let b = rust_decimal::Decimal::from_i128_with_scale(bm, bscale);
    match a.checked_add(b) {
        Some(c) => Some((c.mantissa(), c.scale())),
        None => None,
    }
}

/// The (mantissa, scale) of `rust_decimal`'s `checked_div` of two decimals,
/// or `None` when it reports division by zero or overflow.
pub uninterp spec fn decimal_quotient(am: i128, ascale: u32, bm: i128, bscale: u32) -> Option<(i128, u32)>;

/// Calls `rust_decimal::Decimal::checked_div` on the two decimals.
/// Claimed: the result is `decimal_quotient` of the arguments, and a result
/// is a valid decimal (the crate keeps a 96-bit mantissa and a scale of at most 28).
#[verifier::external_body]
fn rd_checked_div(am: i128, ascale: u32, bm: i128, bscale: u32) -> (r: Option<(i128, u32)>)
    requires
        valid_decimal(am, ascale),
        valid_decimal(bm, bscale),
    ensures
        r == decimal_quotient(am, ascale, bm, bscale),
        r matches Some(p) ==> valid_decimal(p.0, p.1),
{
    let a = rust_decimal::Decimal::from_i128_with_scale(am, ascale);
    let b = rust_decimal::Decimal::from_i128_with_scale(bm, bscale);
    match a.checked_div(b) {
        Some(c) => Some((c.mantissa(), c.scale())),
        None => None,
    }
}

/// A decimal number `mantissa / 10^scale`.
#[derive(Clone, Copy, Debug)]
pub struct Decimal {
    mantissa: i128,
    scale: u32,
}

impl View for Decimal {
    type V = (i128, u32);

    closed spec fn view(&self) -> (i128, u32) {
        (self.mantissa, self.scale)
    }
}

/// The product of two decimals as `rust_decimal` computes it.
pub open spec fn product(a: (i128, u32), b: (i128, u32)) -> Option<(i128, u32)> {
    decimal_product(a.0, a.1, b.0, b.1)
}

/// The quotient of two decimals as `rust_decimal` computes it.
pub open spec fn quotient(a: (i128, u32), b: (i128, u32)) -> Option<(i128, u32)> {
    decimal_quotient(a.0, a.1, b.0, b.1)
}

/// The sum of two decimals as `rust_decimal` computes it.
pub open spec fn sum(a: (i128, u32), b: (i128, u32)) -> Option<(i128, u32)> {
    decimal_sum(a.0, a.1, b.0, b.1)
}

impl Decimal {
    #[verifier::type_invariant]
    spec fn wf(self) -> bool {
        valid_decimal(self.mantissa, self.scale)
    }

    /// Zero.
    pub fn zero() -> (d: Decimal)
        ensures
            d@ == (0i128, 0u32),
    {
        Decimal { mantissa: 0, scale: 0 }
    }

    /// `num / 10^scale` (the scale is at most 28).
    pub fn new(num: i64, scale: u32) -> (d: Decimal)
        requires
            scale <= 28,
        ensures
            d@ == (num as i128, scale),
    {
        Decimal { mantissa: num as i128, scale }
    }

    /// `num / 10^scale` for a valid mantissa and scale.
    pub fn from_i128_with_scale(num: i128, scale: u32) -> (d: Decimal)
        requires
            valid_decimal(num, scale),
        ensures
            d@ == (num, scale),
    {
        Decimal { mantissa: num, scale }
    }

    /// The integer `n`.
    pub fn from_u64(n: u64) -> (d: Decimal)
        ensures
            d@ == (n as i128, 0u32),
    {
        Decimal { mantissa: n as i128, scale: 0 }
    }

    /// The mantissa.
    pub fn mantissa(&self) -> (m: i128)
        ensures
            m == self@.0,
            valid_decimal(self@.0, self@.1),
    {
        proof {
            use_type_invariant(self);
        }
        self.mantissa
    }

    /// The scale.
    pub fn scale(&self) -> (s: u32)
        ensures
            s == self@.1,
            valid_decimal(self@.0, self@.1),
    {
        proof {
            use_type_invariant(self);
        }
        self.scale
    }

    /// `self * other`, or `None` on overflow.
    pub fn checked_mul(&self, other: &Decimal) -> (r: Option<Decimal>)
        ensures
            r matches Some(d) ==> product(self@, other@) == Some(d@),
            r is None ==> product(self@, other@) is None,
    {
        proof {
            use_type_invariant(self);
            use_type_invariant(other);
        }
        match rd_checked_mul(self.mantissa, self.scale, other.mantissa, other.scale) {
            Some((m, s)) => Some(Decimal { mantissa: m, scale: s }),
            None => None,
        }
    }

    /// `self / other`, or `None` on division by zero or overflow.
    pub fn checked_div(&self, other: &Decimal) -> (r: Option<Decimal>)
        ensures
            r matches Some(d) ==> quotient(self@, other@) == Some(d@),
            r is None ==> quotient(self@, other@) is None,
    {
        proof {
            use_type_invariant(self);
            use_type_invariant(other);
        }
        match rd_checked_div(self.mantissa, self.scale, other.mantissa, other.scale) {
            Some((m, s)) => Some(Decimal { mantissa: m, scale: s }),
            None => None,
        }
    }

    /// `self + other`, or `None` on overflow.
    pub fn checked_add(&self, other: &Decimal) -> (r: Option<Decimal>)
        ensures
            r matches Some(d) ==> sum(self@, other@) == Some(d@),
            r is None ==> sum(self@, other@) is None,
    {
        proof {
            use_type_invariant(self);
            use_type_invariant(other);
        }
        match rd_checked_add(self.mantissa, self.scale, other.mantissa, other.scale) {
            Some((m, s)) => Some(Decimal { mantissa: m, scale: s }),
            None => None,
        }
    }
}

/// Compares two decimals with `rust_decimal`'s `==`.
/// Claimed: equal exactly when they denote the same number (`1.0 == 1.00`),
/// as the crate compares decimals by value.
#[verifier::external_body]
fn rd_eq(am: i128, ascale: u32, bm: i128, bscale: u32) -> (b: bool)
    requires
        valid_decimal(am, ascale),
        valid_decimal(bm, bscale),
    ensures
        b == same_value((am, ascale), (bm, bscale)),
{
    rust_decimal::Decimal::from_i128_with_scale(am, ascale) == rust_decimal::Decimal::from_i128_with_scale(bm, bscale)
}

impl PartialEq for Decimal {
    /// Decimals are equal when they denote the same number.
    fn eq(&self, other: &Decimal) -> (r: bool) {
        proof {
            use_type_invariant(self);
            use_type_invariant(other);
        }
        rd_eq(self.mantissa, self.scale, other.mantissa, other.scale)
    }
}

impl PartialEqSpecImpl for Decimal {
    open spec fn obeys_eq_spec() -> bool {
        true
    }

    open spec fn eq_spec(&self, other: &Decimal) -> bool {
        same_value(self@, other@)
    }
}

} // verus!
