//! Safe decimal amounts, computed by `rust_decimal`.
use vstd::prelude::*;

use super::Amount;
use crate::error::{fails_with, Error, Result};

verus! {

/// `10^n`.
pub open spec fn pow10(n: nat) -> nat
    decreases n,
{
    if n == 0 {
        1
    } else {
        10 * pow10((n - 1) as nat)
    }
}

/// A decimal number for precise financial calculations, held as the parts of
/// a `rust_decimal::Decimal`: a 96-bit magnitude split in three 32-bit words,
/// a sign and a decimal scale. Its value is `±magnitude / 10^scale`.
#[derive(Debug, Clone, Copy)]
pub struct Decimal {
    /// Low 32 bits of the magnitude.
    pub lo: u32,
    /// Middle 32 bits of the magnitude.
    pub mid: u32,
    /// High 32 bits of the magnitude.
    pub hi: u32,
    /// Whether the sign bit is set.
    pub negative: bool,
    /// The number of decimal digits after the point.
    pub scale: u32,
}

impl Decimal {
    /// The largest scale a decimal may have.
    pub open spec fn wf(self) -> bool {
        self.scale <= 28
    }

    /// The 96-bit magnitude.
    pub open spec fn mag(self) -> nat {
        (self.hi as nat) * 0x1_0000_0000_0000_0000 + (self.mid as nat) * 0x1_0000_0000
            + (self.lo as nat)
    }

    /// The signed numerator of the value `num / 10^scale`.
    pub open spec fn num(self) -> int {
        if self.negative {
            -(self.mag() as int)
        } else {
            self.mag() as int
        }
    }

    /// The denominator of the value `num / 10^scale`.
    pub open spec fn den(self) -> nat {
        pow10(self.scale as nat)
    }

    /// The two decimals have the same value.
    pub open spec fn same_value(self, other: Decimal) -> bool {
        self.num() * other.den() == other.num() * self.den()
    }

    /// The value of `self` is less than that of `other`.
    pub open spec fn less_than(self, other: Decimal) -> bool {
        self.num() * other.den() < other.num() * self.den()
    }

    /// The value is a whole number `n`.
    pub open spec fn is_whole(self, n: int) -> bool {
        self.num() == n * self.den()
    }
}

/// What `rust_decimal::Decimal::checked_add` returns for two decimals.
pub uninterp spec fn rust_decimal_checked_add(a: Decimal, b: Decimal) -> Option<Decimal>;

/// What `rust_decimal::Decimal::checked_sub` returns for two decimals.
pub uninterp spec fn rust_decimal_checked_sub(a: Decimal, b: Decimal) -> Option<Decimal>;

/// What `rust_decimal::Decimal::checked_mul` returns for two decimals.
pub uninterp spec fn rust_decimal_checked_mul(a: Decimal, b: Decimal) -> Option<Decimal>;

/// What `rust_decimal::Decimal::checked_div` returns for two decimals.
pub uninterp spec fn rust_decimal_checked_div(a: Decimal, b: Decimal) -> Option<Decimal>;

/// What `rust_decimal::Decimal::round` returns for a decimal.
pub uninterp spec fn rust_decimal_round(a: Decimal) -> Decimal;

/// What `rust_decimal::Decimal::from_str` gives for a text: the parts of the
/// parsed decimal, or `None` when the text is refused.
pub uninterp spec fn rust_decimal_from_str(s: Seq<char>) -> Option<Decimal>;

/// Parses a text with `rust_decimal::Decimal::from_str`. Claims that the
/// result is the named one and, when present, has a scale of at most 28.
#[verifier::external_body]
fn rd_from_str(s: &str) -> (r: Option<Decimal>)
    ensures
        r == rust_decimal_from_str(s@),
        r matches Some(d) ==> d.wf(),
{
    match s.parse::<rust_decimal::Decimal>() {
        Ok(d) => {
            let u = d.unpack();
            Some(Decimal { lo: u.lo, mid: u.mid, hi: u.hi, negative: u.negative, scale: u.scale })
        },
        Err(_) => None,
    }
}

/// Calls `rust_decimal::Decimal::checked_add`. Claims that the result is the
/// named one and, when present, has a scale of at most 28 (an invariant of
/// `rust_decimal::Decimal`).
#[verifier::external_body]
pub(crate) fn rd_checked_add(a: Decimal, b: Decimal) -> (r: Option<Decimal>)
    requires
        a.wf(),
        b.wf(),
    ensures
        r == rust_decimal_checked_add(a, b),
        r matches Some(d) ==> d.wf(),
{
    let x = rust_decimal::Decimal::from_parts(a.lo, a.mid, a.hi, a.negative, a.scale);
    let y = rust_decimal::Decimal::from_parts(b.lo, b.mid, b.hi, b.negative, b.scale);
    match x.checked_add(y) {
        Some(d) => {
            let u = d.unpack();
            Some(Decimal { lo: u.lo, mid: u.mid, hi: u.hi, negative: u.negative, scale: u.scale })
        },
        None => None,
    }
}

/// Calls `rust_decimal::Decimal::checked_sub`. Claims that the result is the
/// named one and, when present, has a scale of at most 28.
#[verifier::external_body]
pub(crate) fn rd_checked_sub(a: Decimal, b: Decimal) -> (r: Option<Decimal>)
    requires
        a.wf(),
        b.wf(),
    ensures
        r == rust_decimal_checked_sub(a, b),
        r matches Some(d) ==> d.wf(),
{
    let x = rust_decimal::Decimal::from_parts(a.lo, a.mid, a.hi, a.negative, a.scale);
    let y = rust_decimal::Decimal::from_parts(b.lo, b.mid, b.hi, b.negative, b.scale);
    match x.checked_sub(y) {
        Some(d) => {
            let u = d.unpack();
            Some(Decimal { lo: u.lo, mid: u.mid, hi: u.hi, negative: u.negative, scale: u.scale })
        },
        None => None,
    }
}

/// Calls `rust_decimal::Decimal::checked_mul`. Claims that the result is the
/// named one and, when present, has a scale of at most 28.
#[verifier::external_body]
pub(crate) fn rd_checked_mul(a: Decimal, b: Decimal) -> (r: Option<Decimal>)
    requires
        a.wf(),
        b.wf(),
    ensures
        r == rust_decimal_checked_mul(a, b),
        r matches Some(d) ==> d.wf(),
{
    let x = rust_decimal::Decimal::from_parts(a.lo, a.mid, a.hi, a.negative, a.scale);
    let y = rust_decimal::Decimal::from_parts(b.lo, b.mid, b.hi, b.negative, b.scale);
    match x.checked_mul(y) {
        Some(d) => {
            let u = d.unpack();
            Some(Decimal { lo: u.lo, mid: u.mid, hi: u.hi, negative: u.negative, scale: u.scale })
        },
        None => None,
    }
}

/// Calls `rust_decimal::Decimal::checked_div`. Claims that the result is the
/// named one, that a zero divisor gives `None` (as `div_impl` shows), and that
/// a present result has a scale of at most 28.
#[verifier::external_body]
pub(crate) fn rd_checked_div(a: Decimal, b: Decimal) -> (r: Option<Decimal>)
    requires
        a.wf(),
        b.wf(),
    ensures
        r == rust_decimal_checked_div(a, b),
        b.mag() == 0 ==> r == None::<Decimal>,
        r matches Some(d) ==> d.wf(),
{
    let x = rust_decimal::Decimal::from_parts(a.lo, a.mid, a.hi, a.negative, a.scale);
    let y = rust_decimal::Decimal::from_parts(b.lo, b.mid, b.hi, b.negative, b.scale);
    match x.checked_div(y) {
        Some(d) => {
            let u = d.unpack();
            Some(Decimal { lo: u.lo, mid: u.mid, hi: u.hi, negative: u.negative, scale: u.scale })
        },
        None => None,
    }
}

/// Calls `rust_decimal::Decimal::round` (banker's rounding to an integer).
/// Claims that the result is the named one and has a scale of at most 28.
#[verifier::external_body]
pub(crate) fn rd_round(a: Decimal) -> (r: Decimal)
    requires
        a.wf(),
    ensures
        r == rust_decimal_round(a),
        r.wf(),
{
    let x = rust_decimal::Decimal::from_parts(a.lo, a.mid, a.hi, a.negative, a.scale);
    let u = x.round().unpack();
    Decimal { lo: u.lo, mid: u.mid, hi: u.hi, negative: u.negative, scale: u.scale }
}

/// Calls `<` on two `rust_decimal::Decimal`s, which compares their values.
#[verifier::external_body]
pub(crate) fn rd_lt(a: Decimal, b: Decimal) -> (r: bool)
    requires
        a.wf(),
        b.wf(),
    ensures
        r == a.less_than(b),
{
    let x = rust_decimal::Decimal::from_parts(a.lo, a.mid, a.hi, a.negative, a.scale);
    let y = rust_decimal::Decimal::from_parts(b.lo, b.mid, b.hi, b.negative, b.scale);
    x < y
}

/// Calls `==` on two `rust_decimal::Decimal`s, which compares their values.
#[verifier::external_body]
pub(crate) fn rd_eq(a: Decimal, b: Decimal) -> (r: bool)
    requires
        a.wf(),
        b.wf(),
    ensures
        r == a.same_value(b),
{
    let x = rust_decimal::Decimal::from_parts(a.lo, a.mid, a.hi, a.negative, a.scale);
    let y = rust_decimal::Decimal::from_parts(b.lo, b.mid, b.hi, b.negative, b.scale);
    x == y
}

/// What `Display` writes for a `rust_decimal::Decimal` made of these parts.
pub uninterp spec fn rust_decimal_display(a: Decimal) -> Seq<char>;

/// Formats a `rust_decimal::Decimal` with `Display`. Claims that the text is
/// the named one.
#[verifier::external_body]
fn rd_display(a: Decimal) -> (r: String)
    requires
        a.wf(),
    ensures
        r@ == rust_decimal_display(a),
{
    let x = rust_decimal::Decimal::from_parts(a.lo, a.mid, a.hi, a.negative, a.scale);
    format!("{}", x)
}

/// `10^n` as a `u128`, for `n <= 28`.
fn pow10_u128(n: u32) -> (r: u128)
    requires
        n <= 28,
    ensures
        r == pow10(n as nat),
        1 <= r <= 10_000_000_000_000_000_000_000_000_000u128,
{
    proof {
        lemma_pow10_28();
        lemma_pow10_mono(n as nat, 28);
    }
    let mut r: u128 = 1;
    let mut i: u32 = 0;
    while i < n
        invariant
            i <= n <= 28,
            r == pow10(i as nat),
        decreases n - i,
    {
        proof {
            lemma_pow10_28();
            lemma_pow10_mono((i + 1) as nat, 28);
        }
        r = r * 10;
        i = i + 1;
    }
    r
}

/// `10^28`.
pub proof fn lemma_pow10_28()
    ensures
        pow10(28) == 10_000_000_000_000_000_000_000_000_000nat,
{
    reveal_with_fuel(pow10, 29);
}

/// `10^n` grows with `n`, and is positive.
pub proof fn lemma_pow10_mono(i: nat, j: nat)
    requires
        i <= j,
    ensures
        1 <= pow10(i) <= pow10(j),
    decreases j,
{
    if j > i {
        lemma_pow10_mono(i, (j - 1) as nat);
    } else if i > 0 {
        lemma_pow10_mono((i - 1) as nat, (i - 1) as nat);
    }
}

impl Decimal {
    /// The zero decimal [Decimal::zero] returns.
    pub open spec fn zero_spec() -> Decimal {
        Decimal { lo: 0, mid: 0, hi: 0, negative: false, scale: 0 }
    }

    /// Returns a new `Decimal` with value zero.
    pub fn zero() -> (r: Self)
        ensures
            r.wf(),
            r.num() == 0,
            r.scale == 0,
            r == Decimal::zero_spec(),
    {
        Decimal { lo: 0, mid: 0, hi: 0, negative: false, scale: 0 }
    }

    /// Returns a new `Decimal` with value one.
    pub fn one() -> (r: Self)
        ensures
            r.wf(),
            r.num() == 1,
            r.scale == 0,
    {
        Decimal { lo: 1, mid: 0, hi: 0, negative: false, scale: 0 }
    }

    /// The decimal with the whole value `value`.
    pub fn from_u64(value: u64) -> (r: Self)
        ensures
            r.wf(),
            r.num() == value,
            r.scale == 0,
            !r.negative,
            r == Decimal::from_u64_spec(value),
    {
        let lo = (value & 0xffff_ffff) as u32;
        let mid = (value >> 32) as u32;
        assert((value >> 32) * 0x1_0000_0000 + (value & 0xffff_ffff) == value) by (bit_vector);
        assert((value & 0xffff_ffff) <= 0xffff_ffff) by (bit_vector);
        assert((value >> 32) <= 0xffff_ffff) by (bit_vector);
        Decimal { lo, mid, hi: 0, negative: false, scale: 0 }
    }

    /// The decimal with the whole value of the amount.
    pub fn from_amount(amount: Amount) -> (r: Self)
        ensures
            r.wf(),
            r.num() == amount.value,
            r.scale == 0,
            !r.negative,
            r == Decimal::from_u64_spec(amount.value),
    {
        Decimal::from_u64(amount.value)
    }

    /// The decimal [Decimal::from_u64] builds.
    pub open spec fn from_u64_spec(value: u64) -> Decimal {
        Decimal {
            lo: (value & 0xffff_ffff) as u32,
            mid: (value >> 32) as u32,
            hi: 0,
            negative: false,
            scale: 0,
        }
    }

    /// Parses a decimal number from text, as `rust_decimal` reads it.
    pub fn from_str(s: &str) -> (r: Result<Decimal>)
        ensures
            rust_decimal_from_str(s@) matches Some(d) ==> r == Ok::<Decimal, Error>(d),
            rust_decimal_from_str(s@) is None ==> r == Err::<Decimal, Error>(Error::InvalidDecimal),
            r matches Ok(d) ==> d.wf(),
    {
        match rd_from_str(s) {
            Some(d) => Ok(d),
            None => Err(Error::InvalidDecimal),
        }
    }

    /// The decimal written out as text, all of its scale's digits after the
    /// point (`1.23` for 123 at scale 2).
    pub fn to_string(&self) -> (r: String)
        requires
            self.wf(),
        ensures
            r@ == rust_decimal_display(*self),
    {
        rd_display(*self)
    }

    /// Returns the absolute value of the decimal.
    pub fn abs(&self) -> (r: Self)
        requires
            self.wf(),
        ensures
            r.wf(),
            r.num() == (if self.num() < 0 { -self.num() } else { self.num() }),
            r.scale == self.scale,
            !r.negative,
    {
        Decimal { lo: self.lo, mid: self.mid, hi: self.hi, negative: false, scale: self.scale }
    }

    /// Whether the sign bit is set.
    pub fn is_sign_negative(&self) -> (r: bool)
        ensures
            r == self.negative,
    {
        self.negative
    }

    /// Whether the value is zero.
    pub fn is_zero(&self) -> (r: bool)
        ensures
            r == (self.mag() == 0),
    {
        self.lo == 0 && self.mid == 0 && self.hi == 0
    }

    /// The whole part of a non-negative decimal as a `u64`, or `None` when the
    /// sign bit is set or the whole part does not fit.
    pub fn to_u64(&self) -> (r: Option<u64>)
        requires
            self.wf(),
        ensures
            r == self.to_u64_spec(),
    {
        if self.negative {
            return None;
        }
        let mag: u128 = ((self.hi as u128) << 64) | ((self.mid as u128) << 32) | (self.lo as u128);
        let (hi, mid, lo) = (self.hi, self.mid, self.lo);
        assert((((hi as u128) << 64) | ((mid as u128) << 32) | (lo as u128)) == (hi as u128)
            * 0x1_0000_0000_0000_0000u128 + (mid as u128) * 0x1_0000_0000u128 + (lo as u128))
            by (bit_vector);
        let den = pow10_u128(self.scale);
        let q = mag / den;
        if q <= u64::MAX as u128 {
            Some(q as u64)
        } else {
            None
        }
    }

    /// What [Decimal::to_u64] returns.
    pub open spec fn to_u64_spec(self) -> Option<u64> {
        if self.negative {
            None
        } else if self.mag() / self.den() <= u64::MAX {
            Some((self.mag() / self.den()) as u64)
        } else {
            None
        }
    }

    /// Converts the decimal to an `Amount`, rounding to the nearest integer.
    /// Returns an error if the value is negative or exceeds u64::MAX.
    pub fn amount(&self) -> (r: Result<Amount>)
        requires
            self.wf(),
        ensures
            self.amount_post(r),
    {
        if self.negative {
            Err(crate::error::coins_error("Amounts may not be negative"))
        } else {
            match rd_round(*self).to_u64() {
                Some(value) => Ok(Amount::new(value)),
                None => Err(crate::error::coins_error("Amounts may not be greater than u64::MAX")),
            }
        }
    }

    /// The whole amount [Decimal::amount] gives, if any: the value rounded by
    /// `rust_decimal`, when the sign bit is clear and it fits in a `u64`.
    pub open spec fn amount_spec(self) -> Option<Amount> {
        if self.negative {
            None
        } else {
            match rust_decimal_round(self).to_u64_spec() {
                Some(value) => Some(Amount { value }),
                None => None,
            }
        }
    }

    /// Holds when `r` is what [Decimal::amount] returns: the amount of
    /// [Decimal::amount_spec], or an error "Amounts may not be negative" when
    /// the sign bit is set, or "Amounts may not be greater than u64::MAX".
    pub open spec fn amount_post(self, r: Result<Amount>) -> bool {
        match self.amount_spec() {
            Some(a) => r == Ok::<Amount, Error>(a),
            None => if self.negative {
                fails_with(r, "Amounts may not be negative"@)
            } else {
                fails_with(r, "Amounts may not be greater than u64::MAX"@)
            },
        }
    }
}

} // verus!
