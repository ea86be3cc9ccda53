//! Decimal amounts `mantissa / 10^scale` with a 96-bit mantissa and a scale of at
//! most 28, the representation of rust_decimal, which does their arithmetic.

use std::str::FromStr;
use vstd::prelude::*;

verus! {

/// Largest scale a decimal may carry.
pub const MAX_SCALE: u32 = 28;

/// Largest magnitude of a mantissa (2^96 - 1).
pub const MAX_MANTISSA: i128 = 79228162514264337593543950335;

/// The decimal number `mantissa / 10^scale`.
#[derive(Clone, Copy, Debug, PartialEq, Eq, Structural)]
pub struct Amount {
    pub mantissa: i128,
    pub scale: u32,
}

/// What rust_decimal's `FromStr` reads from a text, as (mantissa, scale).
pub uninterp spec fn decimal_parse(text: Seq<char>) -> Option<(int, int)>;

/// What rust_decimal's `checked_add` gives for two decimals.
pub uninterp spec fn decimal_sum(mantissa_a: int, scale_a: int, mantissa_b: int, scale_b: int) -> Option<(int, int)>;

/// What rust_decimal's `checked_div` gives for `mantissa / 10^scale` divided by a whole number.
pub uninterp spec fn decimal_quotient(mantissa: int, scale: int, divisor: int) -> Option<(int, int)>;

/// How rust_decimal writes `mantissa / 10^scale` as text.
pub uninterp spec fn decimal_text(mantissa: int, scale: int) -> Seq<char>;

pub open spec fn pair_of(r: Option<Amount>) -> Option<(int, int)> {
    match r {
        Some(a) => Some((a.mantissa as int, a.scale as int)),
        None => None,
    }
}

pub open spec fn amount_of(p: Option<(int, int)>) -> Option<Amount> {
    match p {
        Some(q) => Some(Amount { mantissa: q.0 as i128, scale: q.1 as u32 }),
        None => None,
    }
}

/// The amount with trailing zeros of its mantissa removed (zero at scale 0).
pub open spec fn normalize_spec(a: Amount) -> Amount
    decreases a.scale,
{
    if a.scale > 0 && a.mantissa % 10 == 0 {
        normalize_spec(Amount { mantissa: (a.mantissa / 10) as i128, scale: (a.scale - 1) as u32 })
    } else {
        a
    }
}

/// A price per MWh as a price per kWh: rust_decimal's quotient by 1000 without
/// trailing zeros, and zero where the division fails.
pub open spec fn kwh_spec(mwh: Amount) -> Amount {
    match decimal_quotient(mwh.mantissa as int, mwh.scale as int, 1000) {
        Some(q) => normalize_spec(Amount { mantissa: q.0 as i128, scale: q.1 as u32 }),
        None => Amount { mantissa: 0, scale: 0 },
    }
}

/// The price per kWh read from the text of a price per MWh; zero where the text is
/// not a decimal.
pub open spec fn kwh_of_text(text: Seq<char>) -> Amount {
    match decimal_parse(text) {
        Some(p) => kwh_spec(Amount { mantissa: p.0 as i128, scale: p.1 as u32 }),
        None => Amount { mantissa: 0, scale: 0 },
    }
}

impl Amount {
    pub open spec fn wf(self) -> bool {
        self.scale <= MAX_SCALE && -MAX_MANTISSA <= self.mantissa <= MAX_MANTISSA
    }

    /// rust_decimal's sum of two amounts, where it does not overflow.
    pub open spec fn sum_spec(self, other: Amount) -> Option<Amount> {
        amount_of(decimal_sum(self.mantissa as int, self.scale as int, other.mantissa as int, other.scale as int))
    }

    pub fn zero() -> (r: Amount)
        ensures
            r.wf(),
            r.mantissa == 0 && r.scale == 0,
    {
        Amount { mantissa: 0, scale: 0 }
    }

    /// Sum of two amounts; `None` where it overflows.
    pub fn checked_add(self, other: Amount) -> (r: Option<Amount>)
        requires
            self.wf(),
            other.wf(),
        ensures
            r == self.sum_spec(other),
            r matches Some(x) ==> x.wf(),
    {
        decimal_add(self, other)
    }

    /// The same value with trailing zeros of the mantissa removed.
    pub fn normalized(self) -> (r: Amount)
        requires
            self.wf(),
        ensures
            r.wf(),
            r == normalize_spec(self),
    {
        decimal_normalize(self)
    }

    /// Converts a price per MWh into a price per kWh.
    pub fn mwh_to_kwh(self) -> (r: Amount)
        requires
            self.wf(),
        ensures
            r.wf(),
            r == kwh_spec(self),
    {
        match self.divide(1000) {
            Some(q) => q.normalized(),
            None => Amount::zero(),
        }
    }

    /// Text form of the amount, as rust_decimal writes it.
    pub fn to_string(&self) -> (r: String)
        requires
            self.wf(),
        ensures
            r@ == decimal_text(self.mantissa as int, self.scale as int),
    {
        decimal_to_string(*self)
    }

    /// Parses a decimal literal; `None` where rust_decimal refuses it.
    pub fn parse(text: &str) -> (r: Option<Amount>)
        ensures
            pair_of(r) == decimal_parse(text@),
            r matches Some(a) ==> a.wf(),
    {
        parse_decimal(text)
    }

    /// rust_decimal's quotient by a whole number.
    pub fn divide(self, count: u64) -> (r: Option<Amount>)
        requires
            self.wf(),
            count > 0,
        ensures
            pair_of(r) == decimal_quotient(self.mantissa as int, self.scale as int, count as int),
            r matches Some(q) ==> q.wf(),
    {
        checked_div_whole(self, count)
    }
}

/// Relies on rust_decimal's `FromStr for Decimal`, then `mantissa` and `scale`, which
/// hold a scale of at most 28 and a mantissa of at most 96 bits.
#[verifier::external_body]
fn parse_decimal(text: &str) -> (r: Option<Amount>)
    ensures
        pair_of(r) == decimal_parse(text@),
        r matches Some(a) ==> a.wf(),
{
    match rust_decimal::Decimal::from_str(text) {
        Ok(d) => Some(Amount { mantissa: d.mantissa(), scale: d.scale() }),
        Err(_) => None,
    }
}

/// Relies on rust_decimal's `Decimal::checked_add`; the amounts enter through
/// `from_i128_with_scale`, which panics only outside well-formed amounts.
#[verifier::external_body]
fn decimal_add(a: Amount, b: Amount) -> (r: Option<Amount>)
    requires
        a.wf(),
        b.wf(),
    ensures
        pair_of(r) == decimal_sum(a.mantissa as int, a.scale as int, b.mantissa as int, b.scale as int),
        r matches Some(s) ==> s.wf(),
{
    let x = rust_decimal::Decimal::from_i128_with_scale(a.mantissa, a.scale);
    let y = rust_decimal::Decimal::from_i128_with_scale(b.mantissa, b.scale);
    match x.checked_add(y) {
        Some(s) => Some(Amount { mantissa: s.mantissa(), scale: s.scale() }),
        None => None,
    }
}

/// Relies on rust_decimal's `Decimal::checked_div` by a whole divisor; the amount enters
/// through `from_i128_with_scale`, which panics only outside a well-formed amount.
#[verifier::external_body]
fn checked_div_whole(a: Amount, divisor: u64) -> (r: Option<Amount>)
    requires
        a.wf(),
    ensures
        pair_of(r) == decimal_quotient(a.mantissa as int, a.scale as int, divisor as int),
        r matches Some(q) ==> q.wf(),
{
    let n = rust_decimal::Decimal::from_i128_with_scale(a.mantissa, a.scale);
    match n.checked_div(rust_decimal::Decimal::from(divisor)) {
        Some(q) => Some(Amount { mantissa: q.mantissa(), scale: q.scale() }),
        None => None,
    }
}

/// Relies on rust_decimal's `Decimal::normalize`, which strips the trailing zeros of
/// the mantissa (zero becomes 0 at scale 0).
#[verifier::external_body]
fn decimal_normalize(a: Amount) -> (r: Amount)
    requires
        a.wf(),
    ensures
        r == normalize_spec(a),
        r.wf(),
{
    let d = rust_decimal::Decimal::from_i128_with_scale(a.mantissa, a.scale).normalize();
    Amount { mantissa: d.mantissa(), scale: d.scale() }
}

/// Relies on rust_decimal's `Display for Decimal`.
#[verifier::external_body]
fn decimal_to_string(a: Amount) -> (r: String)
    requires
        a.wf(),
    ensures
        r@ == decimal_text(a.mantissa as int, a.scale as int),
{
    rust_decimal::Decimal::from_i128_with_scale(a.mantissa, a.scale).to_string()
}

} // verus!
