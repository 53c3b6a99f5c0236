//! Fixed-precision decimal amounts.
//!
//! An [`Amount`] holds the two plain parts of a `rust_decimal::Decimal`: a
//! signed mantissa of at most 96 bits and a scale between 0 and 28, standing
//! for `mantissa / 10^scale`. The arithmetic itself is done by `rust_decimal`.

use vstd::prelude::*;
use rust_decimal::Decimal;
use core::str::FromStr;

verus! {

/// Largest magnitude of a mantissa: `2^96 - 1`.
pub const MAX_MANTISSA: i128 = 0xFFFF_FFFF_FFFF_FFFF_FFFF_FFFFi128;

/// Largest scale, i.e. the most digits after the decimal point.
pub const MAX_SCALE: u32 = 28;

/// `10^n`.
pub open spec fn pow10(n: nat) -> nat
    decreases n,
{
    if n == 0 {
        1
    } else {
        10 * pow10((n - 1) as nat)
    }
}

/// A decimal number `mantissa / 10^scale`.
#[derive(Clone, Copy, Debug)]
pub struct Amount {
    pub mantissa: i128,
    pub scale: u32,
}

impl Amount {
    /// The parts are within the range of a `Decimal`.
    pub open spec fn wf(self) -> bool {
        &&& -MAX_MANTISSA <= self.mantissa <= MAX_MANTISSA
        &&& self.scale <= MAX_SCALE
    }

    /// The value as an integer count of `10^-28`.
    pub open spec fn units(self) -> int {
        self.mantissa * pow10((MAX_SCALE - self.scale) as nat)
    }

    /// The mantissa written at the larger scale `s`.
    pub open spec fn aligned(self, s: u32) -> int {
        self.mantissa * pow10((s - self.scale) as nat)
    }
}

/// The larger of two scales.
pub open spec fn common_scale(a: Amount, b: Amount) -> u32 {
    if a.scale >= b.scale {
        a.scale
    } else {
        b.scale
    }
}

/// The exact sum as (mantissa, scale): a zero operand gives back the other
/// one, otherwise both are written at the larger scale and added.
pub open spec fn exact_sum(a: Amount, b: Amount) -> (int, u32) {
    if a.mantissa == 0 {
        (b.mantissa as int, b.scale)
    } else if b.mantissa == 0 {
        (a.mantissa as int, a.scale)
    } else {
        let s = common_scale(a, b);
        (a.aligned(s) + b.aligned(s), s)
    }
}

/// The exact difference `a - b` as (mantissa, scale), in the same way.
pub open spec fn exact_difference(a: Amount, b: Amount) -> (int, u32) {
    if a.mantissa == 0 {
        (-b.mantissa, b.scale)
    } else if b.mantissa == 0 {
        (a.mantissa as int, a.scale)
    } else {
        let s = common_scale(a, b);
        (a.aligned(s) - b.aligned(s), s)
    }
}

/// A (mantissa, scale) pair whose mantissa fits in 96 bits.
pub open spec fn representable(p: (int, u32)) -> bool {
    -MAX_MANTISSA <= p.0 <= MAX_MANTISSA
}

/// The amount with the given parts.
pub open spec fn amount_of(p: (int, u32)) -> Amount {
    Amount { mantissa: p.0 as i128, scale: p.1 }
}

/// What `Decimal::checked_add` returns for two decimals: the sum, rounded
/// where it needs more than 96 bits, or `None` where even rounding cannot
/// hold it (where `+` panics).
pub uninterp spec fn decimal_add(a: Amount, b: Amount) -> Option<Amount>;

/// What `Decimal::checked_sub` returns for two decimals, in the same way.
pub uninterp spec fn decimal_sub(a: Amount, b: Amount) -> Option<Amount>;

/// `Decimal::checked_add`. The result is `decimal_add`; a returned value
/// lies in the range of a `Decimal` and has the sign of the exact sum
/// (rounding moves no value across zero); where the exact sum is
/// representable at the scale given by `exact_sum`, the call returns exactly
/// that.
#[verifier::external_body]
fn decimal_checked_add(a: Amount, b: Amount) -> (r: Option<Amount>)
    requires
        a.wf(),
        b.wf(),
    ensures
        r == decimal_add(a, b),
        r matches Some(c) ==> c.wf(),
        r matches Some(c) ==> (a.units() + b.units() >= 0 ==> c.mantissa >= 0),
        r matches Some(c) ==> (a.units() + b.units() <= 0 ==> c.mantissa <= 0),
        representable(exact_sum(a, b)) ==> r == Some(amount_of(exact_sum(a, b))),
{
    let x = Decimal::from_i128_with_scale(a.mantissa, a.scale);
    let y = Decimal::from_i128_with_scale(b.mantissa, b.scale);
    match x.checked_add(y) {
        Some(d) => Some(Amount { mantissa: d.mantissa(), scale: d.scale() }),
        None => None,
    }
}

/// `Decimal::checked_sub`, stated as `decimal_checked_add` is, for `a - b`.
#[verifier::external_body]
fn decimal_checked_sub(a: Amount, b: Amount) -> (r: Option<Amount>)
    requires
        a.wf(),
        b.wf(),
    ensures
        r == decimal_sub(a, b),
        r matches Some(c) ==> c.wf(),
        r matches Some(c) ==> (a.units() - b.units() >= 0 ==> c.mantissa >= 0),
        r matches Some(c) ==> (a.units() - b.units() <= 0 ==> c.mantissa <= 0),
        representable(exact_difference(a, b)) ==> r == Some(amount_of(exact_difference(a, b))),
{
    let x = Decimal::from_i128_with_scale(a.mantissa, a.scale);
    let y = Decimal::from_i128_with_scale(b.mantissa, b.scale);
    match x.checked_sub(y) {
        Some(d) => Some(Amount { mantissa: d.mantissa(), scale: d.scale() }),
        None => None,
    }
}

/// The sum as `Decimal` computes it: exact where representable, otherwise
/// what `decimal_add` names.
pub open spec fn sum_result(a: Amount, b: Amount) -> Option<Amount> {
    if representable(exact_sum(a, b)) {
        Some(amount_of(exact_sum(a, b)))
    } else {
        decimal_add(a, b)
    }
}

/// The difference `a - b` as `Decimal` computes it, in the same way.
pub open spec fn difference_result(a: Amount, b: Amount) -> Option<Amount> {
    if representable(exact_difference(a, b)) {
        Some(amount_of(exact_difference(a, b)))
    } else {
        decimal_sub(a, b)
    }
}

/// `<` on `Decimal`, which orders decimals by their value.
#[verifier::external_body]
fn decimal_lt(a: Amount, b: Amount) -> (r: bool)
    requires
        a.wf(),
        b.wf(),
    ensures
        r == (a.units() < b.units()),
{
    Decimal::from_i128_with_scale(a.mantissa, a.scale) < Decimal::from_i128_with_scale(
        b.mantissa,
        b.scale,
    )
}

/// What `Decimal::from_str` makes of a text: the parts of the decimal, or
/// `None` where it refuses the text.
pub uninterp spec fn decimal_parse(text: Seq<char>) -> Option<(i128, u32)>;

/// `Decimal::from_str`. The parts are those of `decimal_parse`; a parsed
/// decimal lies in the range of a `Decimal`.
#[verifier::external_body]
fn decimal_from_str(text: &str) -> (r: Option<Amount>)
    ensures
        match decimal_parse(text@) {
            Some(p) => r == Some(Amount { mantissa: p.0, scale: p.1 }),
            None => r is None,
        },
        r matches Some(a) ==> a.wf(),
{
    match Decimal::from_str(text) {
        Ok(d) => Some(Amount { mantissa: d.mantissa(), scale: d.scale() }),
        Err(_) => None,
    }
}

/// `10^(x + y) == 10^x * 10^y`.
pub proof fn lemma_pow10_add(x: nat, y: nat)
    ensures
        pow10(x + y) == pow10(x) * pow10(y),
    decreases y,
{
    if y > 0 {
        lemma_pow10_add(x, (y - 1) as nat);
        let p = pow10(x);
        let q = pow10((y - 1) as nat);
        assert(pow10(x + y) == 10 * pow10((x + y - 1) as nat));
        assert((x + y - 1) as nat == x + (y - 1) as nat);
        assert(pow10(y) == 10 * q);
        assert(pow10(x + (y - 1) as nat) == p * q);
        assert(pow10(x + y) == 10 * (p * q));
        assert(10 * (p * q) == p * (10 * q)) by (nonlinear_arith);
    } else {
        assert(x + y == x);
        assert(pow10(y) == 1);
        assert(pow10(x) * 1 == pow10(x));
    }
}

/// The value has the sign of the mantissa.
pub proof fn lemma_units_sign(a: Amount)
    ensures
        a.mantissa >= 0 ==> a.units() >= 0,
        a.mantissa <= 0 ==> a.units() <= 0,
{
    let q = pow10((MAX_SCALE - a.scale) as nat) as int;
    let m = a.mantissa as int;
    assert(q >= 0);
    assert(m >= 0 ==> m * q >= 0) by (nonlinear_arith)
        requires
            q >= 0,
    ;
    assert(m <= 0 ==> m * q <= 0) by (nonlinear_arith)
        requires
            q >= 0,
    ;
}

/// A zero mantissa has value zero.
proof fn lemma_zero_units(a: Amount)
    requires
        a.mantissa == 0,
    ensures
        a.units() == 0,
{
    let q = pow10((MAX_SCALE - a.scale) as nat) as int;
    assert(0 * q == 0);
}

/// A mantissa written at a larger scale keeps its value.
proof fn lemma_aligned_units(a: Amount, s: u32)
    requires
        a.scale <= s <= MAX_SCALE,
    ensures
        a.aligned(s) * pow10((MAX_SCALE - s) as nat) == a.units(),
{
    let k = (s - a.scale) as nat;
    let j = (MAX_SCALE - s) as nat;
    lemma_pow10_add(k, j);
    assert((MAX_SCALE - a.scale) as nat == k + j);
    let m = a.mantissa as int;
    let p = pow10(k) as int;
    let q = pow10(j) as int;
    assert((m * p) * q == m * (p * q)) by (nonlinear_arith);
}

/// The value of a representable exact sum is the sum of the values.
pub proof fn lemma_exact_sum_units(a: Amount, b: Amount)
    requires
        a.wf(),
        b.wf(),
        representable(exact_sum(a, b)),
    ensures
        amount_of(exact_sum(a, b)).units() == a.units() + b.units(),
        amount_of(exact_sum(a, b)).wf(),
{
    if a.mantissa == 0 {
        lemma_zero_units(a);
    } else if b.mantissa == 0 {
        lemma_zero_units(b);
    } else {
        let s = common_scale(a, b);
        lemma_aligned_units(a, s);
        lemma_aligned_units(b, s);
        let x = a.aligned(s);
        let y = b.aligned(s);
        let q = pow10((MAX_SCALE - s) as nat) as int;
        assert((x + y) * q == x * q + y * q) by (nonlinear_arith);
    }
}

/// The value of a representable exact difference is the difference of the
/// values.
pub proof fn lemma_exact_difference_units(a: Amount, b: Amount)
    requires
        a.wf(),
        b.wf(),
        representable(exact_difference(a, b)),
    ensures
        amount_of(exact_difference(a, b)).units() == a.units() - b.units(),
        amount_of(exact_difference(a, b)).wf(),
{
    if a.mantissa == 0 {
        lemma_zero_units(a);
        let m = b.mantissa as int;
        let q = pow10((MAX_SCALE - b.scale) as nat) as int;
        assert((-m) * q == -(m * q)) by (nonlinear_arith);
    } else if b.mantissa == 0 {
        lemma_zero_units(b);
    } else {
        let s = common_scale(a, b);
        lemma_aligned_units(a, s);
        lemma_aligned_units(b, s);
        let x = a.aligned(s);
        let y = b.aligned(s);
        let q = pow10((MAX_SCALE - s) as nat) as int;
        assert((x - y) * q == x * q - y * q) by (nonlinear_arith);
    }
}

impl Amount {
    /// The amount `num / 10^scale`, as `Decimal::new` makes it.
    pub fn new(num: i64, scale: u32) -> (r: Amount)
        requires
            scale <= MAX_SCALE,
        ensures
            r.mantissa == num,
            r.scale == scale,
            r.wf(),
    {
        Amount { mantissa: num as i128, scale }
    }

    /// Zero, with scale 0.
    pub fn zero() -> (r: Amount)
        ensures
            r.mantissa == 0,
            r.scale == 0,
            r.wf(),
            r.units() == 0,
    {
        Amount { mantissa: 0, scale: 0 }
    }

    /// `self + other`, as `Decimal::checked_add` computes it: exact where the
    /// exact sum is representable, rounded otherwise, `None` on overflow.
    pub fn checked_add(self, other: Amount) -> (r: Option<Amount>)
        requires
            self.wf(),
            other.wf(),
        ensures
            r == sum_result(self, other),
            r matches Some(c) ==> c.wf(),
            r matches Some(c) ==> (self.units() + other.units() >= 0 ==> c.units() >= 0),
            r matches Some(c) ==> (self.units() + other.units() <= 0 ==> c.units() <= 0),
            representable(exact_sum(self, other)) ==> (r matches Some(c) && c.units()
                == self.units() + other.units()),
    {
        proof {
            if representable(exact_sum(self, other)) {
                lemma_exact_sum_units(self, other);
            }
        }
        let r = decimal_checked_add(self, other);
        proof {
            if let Some(c) = r {
                lemma_units_sign(c);
            }
        }
        r
    }

    /// `self - other`, as `Decimal::checked_sub` computes it.
    pub fn checked_sub(self, other: Amount) -> (r: Option<Amount>)
        requires
            self.wf(),
            other.wf(),
        ensures
            r == difference_result(self, other),
            r matches Some(c) ==> c.wf(),
            r matches Some(c) ==> (self.units() - other.units() >= 0 ==> c.units() >= 0),
            r matches Some(c) ==> (self.units() - other.units() <= 0 ==> c.units() <= 0),
            representable(exact_difference(self, other)) ==> (r matches Some(c) && c.units()
                == self.units() - other.units()),
    {
        proof {
            if representable(exact_difference(self, other)) {
                lemma_exact_difference_units(self, other);
            }
        }
        let r = decimal_checked_sub(self, other);
        proof {
            if let Some(c) = r {
                lemma_units_sign(c);
            }
        }
        r
    }

    /// Whether `self` is less in value than `other`.
    pub fn less_than(&self, other: &Amount) -> (r: bool)
        requires
            self.wf(),
            other.wf(),
        ensures
            r == (self.units() < other.units()),
    {
        decimal_lt(*self, *other)
    }

    /// Parses a decimal number as `Decimal::from_str` does.
    pub fn parse(text: &str) -> (r: Option<Amount>)
        ensures
            match decimal_parse(text@) {
                Some(p) => r == Some(Amount { mantissa: p.0, scale: p.1 }),
                None => r is None,
            },
            r matches Some(a) ==> a.wf(),
    {
        decimal_from_str(text)
    }
}

} // verus!
