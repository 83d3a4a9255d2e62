//! Exact decimal amounts.
//!
//! An [`Amount`] is a signed 96-bit mantissa together with a scale between 0
//! and 28: the number `mantissa / 10^scale`. This is the representation of
//! `rust_decimal::Decimal`, which carries out the arithmetic. The functions
//! here decide, before an operation is handed to that crate, whether its exact
//! result can be represented; only then is the operation performed.

use rust_decimal::Decimal;
use std::str::FromStr;
use vstd::prelude::*;
use vstd::std_specs::cmp::PartialEqSpecImpl;

verus! {

/// Largest magnitude of a mantissa: `2^96 - 1`.
pub const MAX_MANTISSA: i128 = 79_228_162_514_264_337_593_543_950_335i128;

/// Largest scale, the number of digits after the decimal point.
pub const MAX_SCALE: u32 = 28u32;

/// `10^n`.
pub open spec fn pow10(n: nat) -> int
    decreases n,
{
    if n == 0 {
        1
    } else {
        10 * pow10((n - 1) as nat)
    }
}

/// Powers of ten are positive.
pub proof fn lemma_pow10_positive(n: nat)
    ensures
        pow10(n) >= 1,
    decreases n,
{
    if n > 0 {
        lemma_pow10_positive((n - 1) as nat);
    }
}

/// `10^(a + b) == 10^a * 10^b`.
pub proof fn lemma_pow10_adds(a: nat, b: nat)
    ensures
        pow10(a + b) == pow10(a) * pow10(b),
    decreases a,
{
    if a > 0 {
        lemma_pow10_adds((a - 1) as nat, b);
        assert(pow10(a + b) == 10 * pow10((a - 1 + b) as nat));
        assert(10 * (pow10((a - 1) as nat) * pow10(b)) == (10 * pow10((a - 1) as nat)) * pow10(b))
            by (nonlinear_arith);
    } else {
        assert(pow10(a + b) == 1 * pow10(b));
    }
}

/// Powers of ten grow with the exponent.
pub proof fn lemma_pow10_monotonic(a: nat, b: nat)
    requires
        a <= b,
    ensures
        pow10(a) <= pow10(b),
    decreases b,
{
    if a < b {
        lemma_pow10_monotonic(a, (b - 1) as nat);
        lemma_pow10_positive((b - 1) as nat);
    }
}

/// The mathematical content of an [`Amount`]: the number
/// `mantissa / 10^scale`, together with the scale it is written at.
pub struct Quantity {
    pub mantissa: int,
    pub scale: nat,
}

impl Quantity {
    /// Whether the quantity fits the 96-bit mantissa and the scale range.
    pub open spec fn representable(self) -> bool {
        &&& -MAX_MANTISSA <= self.mantissa <= MAX_MANTISSA
        &&& self.scale <= MAX_SCALE
    }

    /// The number itself, counted in units of `10^-28`. Two quantities
    /// denote the same number exactly when their values agree.
    pub open spec fn value(self) -> int {
        self.mantissa * pow10((MAX_SCALE - self.scale) as nat)
    }

    /// The mantissa this quantity has when written at `scale`, which is at
    /// least its own.
    pub open spec fn at_scale(self, scale: nat) -> int {
        self.mantissa * pow10((scale - self.scale) as nat)
    }

    /// The larger of the two scales.
    pub open spec fn common_scale(self, other: Quantity) -> nat {
        if self.scale >= other.scale {
            self.scale
        } else {
            other.scale
        }
    }

    /// The sum of both quantities written at their common scale.
    pub open spec fn aligned_sum(self, other: Quantity) -> Quantity {
        let scale = self.common_scale(other);
        Quantity { mantissa: self.at_scale(scale) + other.at_scale(scale), scale }
    }

    /// The difference of both quantities written at their common scale.
    pub open spec fn aligned_difference(self, other: Quantity) -> Quantity {
        let scale = self.common_scale(other);
        Quantity { mantissa: self.at_scale(scale) - other.at_scale(scale), scale }
    }

    /// The opposite number at the same scale.
    pub open spec fn negated(self) -> Quantity {
        Quantity { mantissa: -self.mantissa, scale: self.scale }
    }

    /// `self + other`. Adding to zero gives the other operand as it is
    /// written; otherwise the sum is written at the common scale.
    pub open spec fn plus(self, other: Quantity) -> Quantity {
        if self.mantissa == 0 {
            other
        } else if other.mantissa == 0 {
            self
        } else {
            self.aligned_sum(other)
        }
    }

    /// `self - other`. Subtracting from zero negates the other operand as it
    /// is written, subtracting zero changes nothing; otherwise the difference
    /// is written at the common scale.
    pub open spec fn minus(self, other: Quantity) -> Quantity {
        if self.mantissa == 0 {
            other.negated()
        } else if other.mantissa == 0 {
            self
        } else {
            self.aligned_difference(other)
        }
    }

    /// Whether `self + other` can be represented.
    pub open spec fn can_add(self, other: Quantity) -> bool {
        self.plus(other).representable()
    }

    /// Whether `self - other` can be represented.
    pub open spec fn can_subtract(self, other: Quantity) -> bool {
        self.minus(other).representable()
    }

    /// `self <= other` as numbers.
    pub open spec fn at_most(self, other: Quantity) -> bool {
        self.value() <= other.value()
    }
}

/// Writing a quantity at a larger scale does not change the number.
pub proof fn lemma_at_scale_value(q: Quantity, scale: nat)
    requires
        q.scale <= scale <= MAX_SCALE,
    ensures
        q.at_scale(scale) * pow10((MAX_SCALE - scale) as nat) == q.value(),
{
    let up = (scale - q.scale) as nat;
    let rest = (MAX_SCALE - scale) as nat;
    lemma_pow10_adds(up, rest);
    assert((q.mantissa * pow10(up)) * pow10(rest) == q.mantissa * (pow10(up) * pow10(rest)))
        by (nonlinear_arith);
}

/// Zero has the value zero at every scale.
pub proof fn lemma_zero_value(q: Quantity)
    requires
        q.mantissa == 0,
    ensures
        q.value() == 0,
{
    let rest = pow10((MAX_SCALE - q.scale) as nat);
    assert(0 * rest == 0) by (nonlinear_arith);
}

/// Negating a quantity negates its value.
pub proof fn lemma_negated_value(q: Quantity)
    ensures
        q.negated().value() == -q.value(),
{
    let rest = pow10((MAX_SCALE - q.scale) as nat);
    assert((-q.mantissa) * rest == -(q.mantissa * rest)) by (nonlinear_arith);
}

/// Addition is exact: the value of `a.plus(b)` is the sum of the values.
pub proof fn lemma_plus_value(a: Quantity, b: Quantity)
    requires
        a.scale <= MAX_SCALE,
        b.scale <= MAX_SCALE,
    ensures
        a.plus(b).value() == a.value() + b.value(),
        a.plus(b).scale <= MAX_SCALE,
{
    if a.mantissa == 0 {
        lemma_zero_value(a);
    } else if b.mantissa == 0 {
        lemma_zero_value(b);
    } else {
        let scale = a.common_scale(b);
        let rest = pow10((MAX_SCALE - scale) as nat);
        let left = a.at_scale(scale);
        let right = b.at_scale(scale);
        lemma_at_scale_value(a, scale);
        lemma_at_scale_value(b, scale);
        assert((left + right) * rest == left * rest + right * rest) by (nonlinear_arith);
        assert(a.plus(b).value() == (left + right) * rest);
    }
}

/// Subtraction is exact: the value of `a.minus(b)` is the difference of the
/// values.
pub proof fn lemma_minus_value(a: Quantity, b: Quantity)
    requires
        a.scale <= MAX_SCALE,
        b.scale <= MAX_SCALE,
    ensures
        a.minus(b).value() == a.value() - b.value(),
        a.minus(b).scale <= MAX_SCALE,
{
    if a.mantissa == 0 {
        lemma_zero_value(a);
        lemma_negated_value(b);
    } else if b.mantissa == 0 {
        lemma_zero_value(b);
    } else {
        let scale = a.common_scale(b);
        let rest = pow10((MAX_SCALE - scale) as nat);
        let left = a.at_scale(scale);
        let right = b.at_scale(scale);
        lemma_at_scale_value(a, scale);
        lemma_at_scale_value(b, scale);
        assert((left - right) * rest == left * rest - right * rest) by (nonlinear_arith);
        assert(a.minus(b).value() == (left - right) * rest);
    }
}

/// A decimal number held as mantissa and scale.
#[derive(Clone, Copy, Debug)]
pub struct Amount {
    mantissa: i128,
    scale: u32,
}

impl View for Amount {
    type V = Quantity;

    closed spec fn view(&self) -> Quantity {
        Quantity { mantissa: self.mantissa as int, scale: self.scale as nat }
    }
}

impl PartialEq for Amount {
    /// Two amounts are equal when they are the same number, whatever scale
    /// each is written at.
    fn eq(&self, other: &Amount) -> (equal: bool) {
        decimal_le(*self, *other) && decimal_le(*other, *self)
    }
}

impl PartialEqSpecImpl for Amount {
    open spec fn obeys_eq_spec() -> bool {
        true
    }

    open spec fn eq_spec(&self, other: &Amount) -> bool {
        self@.value() == other@.value()
    }
}

/// `10^exponent` for an exponent within the scale range.
fn power_of_ten(exponent: u32) -> (power: i128)
    requires
        exponent <= MAX_SCALE,
    ensures
        power == pow10(exponent as nat),
{
    let mut power: i128 = 1;
    let mut done: u32 = 0;
    while done < exponent
        invariant
            done <= exponent <= MAX_SCALE,
            power == pow10(done as nat),
        decreases exponent - done,
    {
        proof {
            lemma_pow10_monotonic(done as nat, 27);
            lemma_pow10_positive(done as nat);
            assert(pow10(27) == 1_000_000_000_000_000_000_000_000_000int) by {
                reveal_with_fuel(pow10, 28);
            }
        }
        power = power * 10;
        done = done + 1;
    }
    power
}

/// `mantissa * 10^(to - from)`, where that fits in 128 bits.
fn rescaled(mantissa: i128, from: u32, to: u32) -> (wide: Option<i128>)
    requires
        from <= to <= MAX_SCALE,
    ensures
        wide == (if i128::MIN <= mantissa * pow10((to - from) as nat) <= i128::MAX {
            Some((mantissa * pow10((to - from) as nat)) as i128)
        } else {
            None
        }),
{
    let power = power_of_ten(to - from);
    mantissa.checked_mul(power)
}

impl Amount {
    /// Every amount can be represented: its mantissa has at most 96 bits and
    /// its scale is at most 28.
    #[verifier::type_invariant]
    pub open spec fn well_formed(self) -> bool {
        self@.representable()
    }

    /// The amount `num / 10^scale`.
    pub fn new(num: i64, scale: u32) -> (amount: Amount)
        requires
            scale <= MAX_SCALE,
        ensures
            amount@ == (Quantity { mantissa: num as int, scale: scale as nat }),
    {
        Amount { mantissa: num as i128, scale }
    }

    /// The amount `mantissa / 10^scale`, if the mantissa fits in 96 bits and
    /// the scale is at most 28.
    pub fn try_new(mantissa: i128, scale: u32) -> (amount: Option<Amount>)
        ensures
            match amount {
                Some(a) => a@ == (Quantity { mantissa: mantissa as int, scale: scale as nat }),
                None => !(Quantity { mantissa: mantissa as int, scale: scale as nat }).representable(),
            },
    {
        if -MAX_MANTISSA <= mantissa && mantissa <= MAX_MANTISSA && scale <= MAX_SCALE {
            Some(Amount { mantissa, scale })
        } else {
            None
        }
    }

    /// The mantissa, a signed integer of at most 96 bits.
    pub fn mantissa(&self) -> (mantissa: i128)
        ensures
            mantissa == self@.mantissa,
            -MAX_MANTISSA <= mantissa <= MAX_MANTISSA,
    {
        proof {
            use_type_invariant(self);
        }
        self.mantissa
    }

    /// The scale, at most 28.
    pub fn scale(&self) -> (scale: u32)
        ensures
            scale == self@.scale,
            scale <= MAX_SCALE,
    {
        proof {
            use_type_invariant(self);
        }
        self.scale
    }

    /// Whether the sum or, with `negate`, the difference of the two amounts,
    /// written at their common scale, can be represented.
    fn aligned_fits(&self, other: &Amount, negate: bool) -> (fits: bool)
        ensures
            fits == (if negate {
                self@.aligned_difference(other@)
            } else {
                self@.aligned_sum(other@)
            }).representable(),
    {
        proof {
            use_type_invariant(self);
            use_type_invariant(other);
            assert(pow10(0) == 1);
        }
        let scale = if self.scale >= other.scale {
            self.scale
        } else {
            other.scale
        };
        let left = rescaled(self.mantissa, self.scale, scale);
        let right = rescaled(other.mantissa, other.scale, scale);
        match (left, right) {
            (Some(x), Some(y)) => {
                let total = if negate {
                    x.checked_sub(y)
                } else {
                    x.checked_add(y)
                };
                match total {
                    Some(t) => -MAX_MANTISSA <= t && t <= MAX_MANTISSA,
                    None => false,
                }
            },
            _ => false,
        }
    }

    /// Whether `self + other` can be represented.
    pub fn can_add(&self, other: &Amount) -> (fits: bool)
        ensures
            fits == self@.can_add(other@),
    {
        proof {
            use_type_invariant(self);
            use_type_invariant(other);
        }
        self.mantissa == 0 || other.mantissa == 0 || self.aligned_fits(other, false)
    }

    /// Whether `self - other` can be represented.
    pub fn can_subtract(&self, other: &Amount) -> (fits: bool)
        ensures
            fits == self@.can_subtract(other@),
    {
        proof {
            use_type_invariant(self);
            use_type_invariant(other);
        }
        self.mantissa == 0 || other.mantissa == 0 || self.aligned_fits(other, true)
    }

    /// `self + other`, where the sum can be represented.
    pub fn checked_add(&self, other: &Amount) -> (sum: Option<Amount>)
        ensures
            match sum {
                Some(s) => self@.can_add(other@) && s@ == self@.plus(other@),
                None => !self@.can_add(other@),
            },
    {
        if self.can_add(other) {
            Some(decimal_add(*self, *other))
        } else {
            None
        }
    }

    /// `self - other`, where the difference can be represented.
    pub fn checked_sub(&self, other: &Amount) -> (difference: Option<Amount>)
        ensures
            match difference {
                Some(d) => self@.can_subtract(other@) && d@ == self@.minus(other@),
                None => !self@.can_subtract(other@),
            },
    {
        if self.can_subtract(other) {
            Some(decimal_sub(*self, *other))
        } else {
            None
        }
    }
}

/// Adds with `rust_decimal`: the `+` of `Decimal`.
///
/// Trusted: for two operands whose sum, written at the larger of the two
/// scales, has a mantissa of at most 96 bits, the crate returns exactly that
/// sum at that scale; where one operand is zero it returns the other operand
/// with the scale that operand has. Sums that do not fit are rounded by the
/// crate or make it panic, and are excluded here.
#[verifier::external_body]
pub(crate) fn decimal_add(a: Amount, b: Amount) -> (sum: Amount)
    requires
        a@.can_add(b@),
    ensures
        sum@ == a@.plus(b@),
{
    let sum = Decimal::from_i128_with_scale(a.mantissa, a.scale) + Decimal::from_i128_with_scale(
        b.mantissa,
        b.scale,
    );
    Amount { mantissa: sum.mantissa(), scale: sum.scale() }
}

/// Subtracts with `rust_decimal`: the `-` of `Decimal`.
///
/// Trusted: for two operands whose difference, written at the larger of the
/// two scales, has a mantissa of at most 96 bits, the crate returns exactly
/// that difference at that scale; zero minus an operand is that operand
/// negated at its own scale, and an operand minus zero is the operand as it
/// is. Differences that do not fit are rounded by the crate or make it panic,
/// and are excluded here.
#[verifier::external_body]
pub(crate) fn decimal_sub(a: Amount, b: Amount) -> (difference: Amount)
    requires
        a@.can_subtract(b@),
    ensures
        difference@ == a@.minus(b@),
{
    let difference = Decimal::from_i128_with_scale(a.mantissa, a.scale)
        - Decimal::from_i128_with_scale(b.mantissa, b.scale);
    Amount { mantissa: difference.mantissa(), scale: difference.scale() }
}

/// Compares with `rust_decimal`: the `<=` of `Decimal`.
///
/// Trusted: the crate orders decimals as numbers, whatever scale each is
/// written at.
#[verifier::external_body]
pub(crate) fn decimal_le(a: Amount, b: Amount) -> (holds: bool)
    ensures
        holds == a@.at_most(b@),
{
    Decimal::from_i128_with_scale(a.mantissa, a.scale) <= Decimal::from_i128_with_scale(
        b.mantissa,
        b.scale,
    )
}

/// What `rust_decimal` reads out of a text: mantissa and scale of the decimal
/// that `Decimal::from_str` returns for it, or `None` where it returns an
/// error.
pub uninterp spec fn decimal_of_text(text: Seq<char>) -> Option<(int, nat)>;

/// Parses with `rust_decimal`: `Decimal::from_str`.
///
/// Trusted: the result depends on the text alone. Nothing is claimed about
/// which texts the crate accepts.
#[verifier::external_body]
pub(crate) fn decimal_from_str(text: &str) -> (parsed: Option<Amount>)
    ensures
        match parsed {
            Some(amount) => decimal_of_text(text@) == Some((amount@.mantissa, amount@.scale)),
            None => decimal_of_text(text@) is None,
        },
{
    match Decimal::from_str(text) {
        Ok(decimal) => Some(Amount { mantissa: decimal.mantissa(), scale: decimal.scale() }),
        Err(_) => None,
    }
}

} // verus!
