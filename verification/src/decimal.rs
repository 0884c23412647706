//! Exact decimal quantities. A quantity is an integer mantissa together
//! with a scale, the number of digits after the decimal point; parsing,
//! comparison and subtraction are done by the `rust_decimal` crate.

use core::str::FromStr;
use rust_decimal::Decimal;
use vstd::arithmetic::power::*;
use vstd::prelude::*;
use vstd::std_specs::cmp::PartialEqSpecImpl;

verus! {

/// The largest mantissa, in absolute value, that a quantity holds: 96 bits.
pub const MAX_MANTISSA: i128 = 79_228_162_514_264_337_593_543_950_335i128;

/// The largest scale that a quantity holds.
pub const MAX_SCALE: u32 = 28u32;

/// The number `mantissa / 10^scale`.
pub struct DecimalValue {
    pub mantissa: int,
    pub scale: nat,
}

impl DecimalValue {
    /// Whether a quantity can hold this value as it is written.
    pub open spec fn representable(self) -> bool {
        -MAX_MANTISSA <= self.mantissa <= MAX_MANTISSA && self.scale <= MAX_SCALE
    }

    /// Whether two values are the same number, whatever their scales:
    /// `1.0` and `1.00` are.
    pub open spec fn same_number(self, other: DecimalValue) -> bool {
        self.mantissa * pow(10, other.scale) == other.mantissa * pow(10, self.scale)
    }

    /// The value without its sign.
    pub open spec fn abs(self) -> DecimalValue {
        DecimalValue {
            mantissa: if self.mantissa < 0 {
                -self.mantissa
            } else {
                self.mantissa
            },
            scale: self.scale,
        }
    }

    /// The value with the opposite sign.
    pub open spec fn negated(self) -> DecimalValue {
        DecimalValue { mantissa: -self.mantissa, scale: self.scale }
    }
}

/// What `Decimal::from_str` reads from `text`: the mantissa and the scale
/// of the decimal, or `None` where it rejects the text.
pub uninterp spec fn decimal_from_text(text: Seq<char>) -> Option<(int, nat)>;

/// What `Decimal::saturating_sub` gives for the decimal with mantissa `m1`
/// and scale `s1` minus the one with mantissa `m2` and scale `s2`: the
/// mantissa and the scale of the result.
pub uninterp spec fn decimal_difference(m1: int, s1: nat, m2: int, s2: nat) -> (int, nat);

/// `decimal_from_text`, as a value.
pub open spec fn parsed_decimal(text: Seq<char>) -> Option<DecimalValue> {
    match decimal_from_text(text) {
        Some((mantissa, scale)) => Some(DecimalValue { mantissa, scale }),
        None => None,
    }
}

/// `decimal_difference`, on values.
pub open spec fn difference(a: DecimalValue, b: DecimalValue) -> DecimalValue {
    let (mantissa, scale) = decimal_difference(a.mantissa, a.scale, b.mantissa, b.scale);
    DecimalValue { mantissa, scale }
}

/// An exact decimal number of at most 96 bits of mantissa and 28 decimal
/// places.
#[derive(Clone, Copy, Debug)]
pub struct Quantity {
    mantissa: i128,
    scale: u32,
}

impl View for Quantity {
    type V = DecimalValue;

    closed spec fn view(&self) -> DecimalValue {
        DecimalValue { mantissa: self.mantissa as int, scale: self.scale as nat }
    }
}

/// Calls `Decimal::from_str` and takes the result apart with
/// `Decimal::mantissa` and `Decimal::scale`. The contract names what was
/// read `decimal_from_text`.
#[verifier::external_body]
fn decimal_parse(text: &str) -> (quantity: Option<Quantity>)
    ensures
        match quantity {
            Some(q) => decimal_from_text(text@) == Some((q@.mantissa, q@.scale)),
            None => decimal_from_text(text@) is None,
        },
{
    match Decimal::from_str(text) {
        Ok(decimal) => Some(Quantity { mantissa: decimal.mantissa(), scale: decimal.scale() }),
        Err(_) => None,
    }
}

/// Calls `==` of `Decimal`, which compares the two numbers and not their
/// digits: it scales the operand with fewer decimal places up before it
/// compares, so that `1.0 == 1.00`.
#[verifier::external_body]
fn decimal_eq(a: &Quantity, b: &Quantity) -> (equal: bool)
    ensures
        equal == a@.same_number(b@),
{
    Decimal::from_i128_with_scale(a.mantissa, a.scale) == Decimal::from_i128_with_scale(
        b.mantissa,
        b.scale,
    )
}

/// Calls `Decimal::saturating_sub`. The contract names the result
/// `decimal_difference`; where the exact difference does not fit, the crate
/// rounds or saturates, and the name stands for that too.
#[verifier::external_body]
fn decimal_sub(a: &Quantity, b: &Quantity) -> (d: Quantity)
    ensures
        (d@.mantissa, d@.scale) == decimal_difference(
            a@.mantissa,
            a@.scale,
            b@.mantissa,
            b@.scale,
        ),
{
    let left = Decimal::from_i128_with_scale(a.mantissa, a.scale);
    let right = Decimal::from_i128_with_scale(b.mantissa, b.scale);
    let decimal = left.saturating_sub(right);
    Quantity { mantissa: decimal.mantissa(), scale: decimal.scale() }
}

impl Quantity {
    #[verifier::type_invariant]
    spec fn within_limits(self) -> bool {
        -MAX_MANTISSA <= self.mantissa <= MAX_MANTISSA && self.scale <= MAX_SCALE
    }

    /// The quantity `mantissa / 10^scale`, where it is within the limits.
    pub fn new(mantissa: i128, scale: u32) -> (quantity: Option<Quantity>)
        ensures
            match quantity {
                Some(q) => q@ == (DecimalValue { mantissa: mantissa as int, scale: scale as nat }),
                None => !(DecimalValue {
                    mantissa: mantissa as int,
                    scale: scale as nat,
                }).representable(),
            },
    {
        if -MAX_MANTISSA <= mantissa && mantissa <= MAX_MANTISSA && scale <= MAX_SCALE {
            Some(Quantity { mantissa, scale })
        } else {
            None
        }
    }

    /// The digits of the quantity, as one integer with its sign.
    pub fn mantissa(&self) -> (mantissa: i128)
        ensures
            mantissa == self@.mantissa,
    {
        self.mantissa
    }

    /// The number of digits that stand behind the decimal point.
    pub fn scale(&self) -> (scale: u32)
        ensures
            scale == self@.scale,
    {
        self.scale
    }

    /// Reads a quantity from its decimal notation.
    pub fn from_text(text: &str) -> (quantity: Option<Quantity>)
        ensures
            match quantity {
                Some(q) => parsed_decimal(text@) == Some(q@),
                None => parsed_decimal(text@) is None,
            },
    {
        decimal_parse(text)
    }

    /// The quantity without its sign.
    pub fn abs(&self) -> (magnitude: Quantity)
        ensures
            magnitude@ == self@.abs(),
    {
        proof {
            use_type_invariant(self);
        }
        if self.mantissa < 0 {
            Quantity { mantissa: -self.mantissa, scale: self.scale }
        } else {
            Quantity { mantissa: self.mantissa, scale: self.scale }
        }
    }

    /// `self - other`.
    pub fn minus(&self, other: &Quantity) -> (d: Quantity)
        ensures
            d@ == difference(self@, other@),
    {
        decimal_sub(self, other)
    }
}

impl PartialEq for Quantity {
    fn eq(&self, other: &Quantity) -> (equal: bool) {
        decimal_eq(self, other)
    }
}

impl PartialEqSpecImpl for Quantity {
    open spec fn obeys_eq_spec() -> bool {
        true
    }

    open spec fn eq_spec(&self, other: &Quantity) -> bool {
        self@.same_number(other@)
    }
}

/// A value is the same number as its negation only if it is zero.
pub proof fn lemma_same_number_as_negation(a: DecimalValue)
    ensures
        a.same_number(a.negated()) <==> a.mantissa == 0,
{
    lemma_pow_positive(10, a.scale);
    let p = pow(10, a.scale);
    assert(a.mantissa * p == (-a.mantissa) * p <==> a.mantissa == 0) by (nonlinear_arith)
        requires
            p > 0,
    ;
}

} // verus!
