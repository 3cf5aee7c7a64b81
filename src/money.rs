//! Exact decimal amounts, held as a mantissa and a scale, with the arithmetic
//! of `rust_decimal`.
use vstd::prelude::*;

verus! {

/// The largest magnitude of a mantissa: 2^96 - 1.
pub const MAX_MANTISSA: i128 = 0xFFFF_FFFF_FFFF_FFFF_FFFF_FFFF;

/// The largest number of digits after the decimal point.
pub const MAX_SCALE: u32 = 28;

/// An exact decimal amount, `mantissa / 10^scale`.
///
/// Two values are `==` when they have the same representation; `1.0` and
/// `1.00` are the same amount (see `value`) but not the same representation.
#[derive(Clone, Copy, Debug, PartialEq, Eq, Structural)]
pub struct Money {
    pub mantissa: i128,
    pub scale: u32,
}

pub open spec fn pow10(n: nat) -> int
    decreases n,
{
    if n == 0 {
        1
    } else {
        10 * pow10((n - 1) as nat)
    }
}

pub proof fn lemma_pow10_positive(n: nat)
    ensures
        pow10(n) > 0,
    decreases n,
{
    if n > 0 {
        lemma_pow10_positive((n - 1) as nat);
    }
}

impl Money {
    /// A representation that `rust_decimal::Decimal` can hold.
    pub open spec fn wf(self) -> bool {
        -MAX_MANTISSA <= self.mantissa <= MAX_MANTISSA && self.scale <= MAX_SCALE
    }

    /// The amount in units of 10^-28, an exact integer for every well-formed value.
    pub open spec fn value(self) -> int {
        self.mantissa * pow10((MAX_SCALE - self.scale) as nat)
    }

    pub open spec fn spec_zero() -> Money {
        Money { mantissa: 0, scale: 0 }
    }

    /// Zero, as `Decimal::ZERO` holds it.
    pub fn zero() -> (r: Money)
        ensures
            r == Money::spec_zero(),
            r.wf(),
    {
        Money { mantissa: 0, scale: 0 }
    }

    /// A whole number, as `Decimal::from` builds it from an integer.
    pub fn from_int(n: i64) -> (r: Money)
        ensures
            r == (Money { mantissa: n as i128, scale: 0 }),
            r.wf(),
    {
        Money { mantissa: n as i128, scale: 0 }
    }

    pub fn is_negative(&self) -> (r: bool)
        ensures
            r == (self.mantissa < 0),
    {
        self.mantissa < 0
    }

    pub fn is_positive(&self) -> (r: bool)
        ensures
            r == (self.mantissa > 0),
    {
        self.mantissa > 0
    }

    pub open spec fn spec_abs(self) -> Money {
        Money { mantissa: if self.mantissa < 0 { (-self.mantissa) as i128 } else { self.mantissa }, scale: self.scale }
    }

    /// The magnitude, at the same scale (what `Decimal::abs` does: it clears the sign).
    pub fn abs(&self) -> (r: Money)
        requires
            self.wf(),
        ensures
            r == self.spec_abs(),
            r.wf(),
    {
        if self.mantissa < 0 {
            Money { mantissa: -self.mantissa, scale: self.scale }
        } else {
            *self
        }
    }
}

/// What `rust_decimal` gives for `a + b`: `None` where the sum overflows.
pub uninterp spec fn decimal_sum(a: Money, b: Money) -> Option<Money>;

/// What `rust_decimal` gives for `a - b`: `None` where the difference overflows.
pub uninterp spec fn decimal_difference(a: Money, b: Money) -> Option<Money>;

/// What `rust_decimal` gives for `a * b`, rounded where the scale would pass 28.
pub uninterp spec fn decimal_product(a: Money, b: Money) -> Option<Money>;

/// What `rust_decimal` gives for `a / b`, rounded to 28 significant digits.
pub uninterp spec fn decimal_quotient(a: Money, b: Money) -> Option<Money>;

/// What `rust_decimal` prints for an amount (`Display`).
pub uninterp spec fn decimal_text(a: Money) -> Seq<char>;

/// Relies on `rust_decimal::Decimal::checked_add`: the sum, `None` on overflow.
#[verifier::external_body]
pub(crate) fn checked_add(a: Money, b: Money) -> (r: Option<Money>)
    requires
        a.wf(),
        b.wf(),
    ensures
        r == decimal_sum(a, b),
        r matches Some(x) ==> x.wf(),
{
    let x = rust_decimal::Decimal::from_i128_with_scale(a.mantissa, a.scale);
    let y = rust_decimal::Decimal::from_i128_with_scale(b.mantissa, b.scale);
    match x.checked_add(y) {
        Some(d) => Some(Money { mantissa: d.mantissa(), scale: d.scale() }),
        None => None,
    }
}

/// Relies on `rust_decimal::Decimal::checked_sub`: the difference, `None` on overflow.
#[verifier::external_body]
pub(crate) fn checked_sub(a: Money, b: Money) -> (r: Option<Money>)
    requires
        a.wf(),
        b.wf(),
    ensures
        r == decimal_difference(a, b),
        r matches Some(x) ==> x.wf(),
{
    let x = rust_decimal::Decimal::from_i128_with_scale(a.mantissa, a.scale);
    let y = rust_decimal::Decimal::from_i128_with_scale(b.mantissa, b.scale);
    match x.checked_sub(y) {
        Some(d) => Some(Money { mantissa: d.mantissa(), scale: d.scale() }),
        None => None,
    }
}

/// Relies on `rust_decimal::Decimal::checked_mul`: the product, `None` on overflow.
#[verifier::external_body]
pub(crate) fn checked_mul(a: Money, b: Money) -> (r: Option<Money>)
    requires
        a.wf(),
        b.wf(),
    ensures
        r == decimal_product(a, b),
        r matches Some(x) ==> x.wf(),
{
    let x = rust_decimal::Decimal::from_i128_with_scale(a.mantissa, a.scale);
    let y = rust_decimal::Decimal::from_i128_with_scale(b.mantissa, b.scale);
    match x.checked_mul(y) {
        Some(d) => Some(Money { mantissa: d.mantissa(), scale: d.scale() }),
        None => None,
    }
}

/// Relies on `rust_decimal::Decimal::checked_div`: the quotient, `None` on
/// overflow or on a zero divisor.
#[verifier::external_body]
pub(crate) fn checked_div(a: Money, b: Money) -> (r: Option<Money>)
    requires
        a.wf(),
        b.wf(),
    ensures
        r == decimal_quotient(a, b),
        r matches Some(x) ==> x.wf(),
        b.mantissa == 0 ==> r is None,
{
    let x = rust_decimal::Decimal::from_i128_with_scale(a.mantissa, a.scale);
    let y = rust_decimal::Decimal::from_i128_with_scale(b.mantissa, b.scale);
    match x.checked_div(y) {
        Some(d) => Some(Money { mantissa: d.mantissa(), scale: d.scale() }),
        None => None,
    }
}

/// Relies on `Ord for rust_decimal::Decimal`, which compares numeric values.
#[verifier::external_body]
pub(crate) fn greater_than(a: Money, b: Money) -> (r: bool)
    requires
        a.wf(),
        b.wf(),
    ensures
        r == (a.value() > b.value()),
{
    let x = rust_decimal::Decimal::from_i128_with_scale(a.mantissa, a.scale);
    let y = rust_decimal::Decimal::from_i128_with_scale(b.mantissa, b.scale);
    x > y
}

/// Relies on `Display for rust_decimal::Decimal`.
#[verifier::external_body]
pub(crate) fn to_text(a: Money) -> (r: String)
    requires
        a.wf(),
    ensures
        r@ == decimal_text(a),
{
    rust_decimal::Decimal::from_i128_with_scale(a.mantissa, a.scale).to_string()
}

/// What `rust_decimal` reads from a text (`FromStr`); `None` where it refuses it.
pub uninterp spec fn parsed_amount(s: Seq<char>) -> Option<Money>;

/// Relies on `FromStr for rust_decimal::Decimal`.
#[verifier::external_body]
pub(crate) fn parse_amount(s: &str) -> (r: Option<Money>)
    ensures
        r == parsed_amount(s@),
        r matches Some(x) ==> x.wf(),
{
    match <rust_decimal::Decimal as core::str::FromStr>::from_str(s) {
        Ok(d) => Some(Money { mantissa: d.mantissa(), scale: d.scale() }),
        Err(_) => None,
    }
}

} // verus!
