use vstd::prelude::*;

use crate::scanner::value_type::ValueType;

verus! {

/// Comparison operator applied during a scan.
#[derive(Clone, Copy, Debug, PartialEq, Eq, Structural)]
pub enum ComparisonType {
    Eq,
    Ne,
    Lt,
    Le,
    Gt,
    Ge,
}

/// Magnitude bits (everything but the sign) of an IEEE-754 single-precision bit pattern.
pub open spec fn f32_magnitude(bits: u32) -> int {
    bits as int % 0x8000_0000
}

/// Whether an IEEE-754 single-precision bit pattern encodes a NaN
/// (all exponent bits set and a non-zero mantissa).
pub open spec fn f32_is_nan(bits: u32) -> bool {
    f32_magnitude(bits) > 0x7F80_0000
}

/// An integer that orders non-NaN IEEE-754 single-precision values as the reals they denote:
/// the magnitude for a cleared sign bit, its negation for a set one (so `+0` and `-0` coincide).
pub open spec fn f32_order_key(bits: u32) -> int {
    if bits >= 0x8000_0000 {
        -f32_magnitude(bits)
    } else {
        f32_magnitude(bits)
    }
}

impl ComparisonType {
    /// The comparison operator whose wire code is `code`, if any.
    pub open spec fn from_code(code: u8) -> Option<ComparisonType> {
        if code == 0 {
            Some(ComparisonType::Eq)
        } else if code == 1 {
            Some(ComparisonType::Ne)
        } else if code == 2 {
            Some(ComparisonType::Lt)
        } else if code == 3 {
            Some(ComparisonType::Le)
        } else if code == 4 {
            Some(ComparisonType::Gt)
        } else if code == 5 {
            Some(ComparisonType::Ge)
        } else {
            None
        }
    }

    /// `lhs <op> rhs` on mathematical integers.
    pub open spec fn holds(self, lhs: int, rhs: int) -> bool {
        match self {
            ComparisonType::Eq => lhs == rhs,
            ComparisonType::Ne => lhs != rhs,
            ComparisonType::Lt => lhs < rhs,
            ComparisonType::Le => lhs <= rhs,
            ComparisonType::Gt => lhs > rhs,
            ComparisonType::Ge => lhs >= rhs,
        }
    }

    /// `lhs <op> rhs` on the `f32` values with bit patterns `lhs` and `rhs`, following IEEE-754:
    /// every comparison involving a NaN is false except `!=`, which is true; otherwise the values
    /// compare as the reals they denote. That this matches Rust's `f32` operators is checked by
    /// tests against them, not proved.
    pub open spec fn holds_f32(self, lhs: u32, rhs: u32) -> bool {
        if f32_is_nan(lhs) || f32_is_nan(rhs) {
            self == ComparisonType::Ne
        } else {
            self.holds(f32_order_key(lhs), f32_order_key(rhs))
        }
    }

    /// Applies the operator to two integers.
    pub fn evaluate(self, lhs: i64, rhs: i64) -> (b: bool)
        ensures
            b == self.holds(lhs as int, rhs as int),
    {
        match self {
            ComparisonType::Eq => lhs == rhs,
            ComparisonType::Ne => lhs != rhs,
            ComparisonType::Lt => lhs < rhs,
            ComparisonType::Le => lhs <= rhs,
            ComparisonType::Gt => lhs > rhs,
            ComparisonType::Ge => lhs >= rhs,
        }
    }

    /// Applies the operator to the `f32` values with bit patterns `lhs` and `rhs`.
    pub fn evaluate_f32(self, lhs: u32, rhs: u32) -> (b: bool)
        ensures
            b == self.holds_f32(lhs, rhs),
    {
        let lhs_mag: u32 = lhs % 0x8000_0000;
        let rhs_mag: u32 = rhs % 0x8000_0000;
        if lhs_mag > 0x7F80_0000 || rhs_mag > 0x7F80_0000 {
            return match self {
                ComparisonType::Ne => true,
                _ => false,
            };
        }
        let lhs_key: i64 = if lhs >= 0x8000_0000 { -(lhs_mag as i64) } else { lhs_mag as i64 };
        let rhs_key: i64 = if rhs >= 0x8000_0000 { -(rhs_mag as i64) } else { rhs_mag as i64 };
        self.evaluate(lhs_key, rhs_key)
    }
}

/// Whether `lhs <op> rhs` holds for two values of type `value_type`, given as the numbers they
/// denote (for `F32`, their bit patterns).
pub open spec fn values_match(value_type: ValueType, op: ComparisonType, lhs: int, rhs: int) -> bool {
    if value_type == ValueType::F32 {
        op.holds_f32(lhs as u32, rhs as u32)
    } else {
        op.holds(lhs, rhs)
    }
}

/// Compares two values of type `value_type`, given as the numbers they denote
/// (for `F32`, their bit patterns).
pub fn compare_values(value_type: ValueType, op: ComparisonType, lhs: i64, rhs: i64) -> (b: bool)
    requires
        value_type == ValueType::F32 ==> 0 <= lhs <= u32::MAX && 0 <= rhs <= u32::MAX,
    ensures
        b == values_match(value_type, op, lhs as int, rhs as int),
{
    match value_type {
        ValueType::F32 => op.evaluate_f32(lhs as u32, rhs as u32),
        _ => op.evaluate(lhs, rhs),
    }
}

impl TryFrom<u8> for ComparisonType {
    type Error = ();

    fn try_from(value: u8) -> (r: Result<Self, Self::Error>)
        ensures
            r == (match ComparisonType::from_code(value) {
                Some(v) => Ok(v),
                None => Err(()),
            }),
    {
        match value {
            0 => Ok(ComparisonType::Eq),
            1 => Ok(ComparisonType::Ne),
            2 => Ok(ComparisonType::Lt),
            3 => Ok(ComparisonType::Le),
            4 => Ok(ComparisonType::Gt),
            5 => Ok(ComparisonType::Ge),
            _ => Err(()),
        }
    }
}

impl vstd::std_specs::convert::TryFromSpecImpl<u8> for ComparisonType {
    open spec fn obeys_try_from_spec() -> bool {
        true
    }

    open spec fn try_from_spec(v: u8) -> Result<Self, Self::Error> {
        match ComparisonType::from_code(v) {
            Some(c) => Ok(c),
            None => Err(()),
        }
    }
}

/// Law: for every value type, `Ne` holds exactly when `Eq` does not.
pub proof fn lemma_ne_is_not_eq(value_type: ValueType, lhs: int, rhs: int)
    ensures
        values_match(value_type, ComparisonType::Ne, lhs, rhs) == !values_match(
            value_type,
            ComparisonType::Eq,
            lhs,
            rhs,
        ),
{
}

/// Law: for integer value types, `Lt` and `Ge` are complementary, and so are `Gt` and `Le`.
pub proof fn lemma_integer_orders_complement(value_type: ValueType, lhs: int, rhs: int)
    requires
        value_type != ValueType::F32,
    ensures
        values_match(value_type, ComparisonType::Lt, lhs, rhs) == !values_match(
            value_type,
            ComparisonType::Ge,
            lhs,
            rhs,
        ),
        values_match(value_type, ComparisonType::Gt, lhs, rhs) == !values_match(
            value_type,
            ComparisonType::Le,
            lhs,
            rhs,
        ),
{
}

/// Law: an `f32` NaN satisfies no comparison but `Ne`, on either side, even against itself.
pub proof fn lemma_f32_nan_is_unordered(op: ComparisonType, nan: u32, other: u32)
    requires
        f32_is_nan(nan),
    ensures
        op.holds_f32(nan, other) == (op == ComparisonType::Ne),
        op.holds_f32(other, nan) == (op == ComparisonType::Ne),
{
}

/// Law: `+0.0` and `-0.0` compare equal as `f32` values.
pub proof fn lemma_f32_signed_zeros_equal()
    ensures
        ComparisonType::Eq.holds_f32(0, 0x8000_0000),
        !ComparisonType::Lt.holds_f32(0x8000_0000, 0),
{
}

} // verus!
