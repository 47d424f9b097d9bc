use vstd::prelude::*;

use crate::scanner::comparison::ComparisonType;
use crate::scanner::value_type::ValueType;

verus! {

/// Typed comparison value used by scans.
///
/// An `F32` value is given by its IEEE-754 bit pattern (as `f32::to_bits` returns it);
/// scans and `==` compare it with `f32` semantics.
#[derive(Clone, Copy, Debug)]
pub enum ScanValue {
    U8(u8),
    U16(u16),
    U32(u32),
    I8(i8),
    I16(i16),
    I32(i32),
    F32(u32),
    PreviousValue,
}

impl ScanValue {
    /// The value type of an exact value; `None` for `PreviousValue`.
    pub open spec fn spec_value_type(self) -> Option<ValueType> {
        match self {
            ScanValue::U8(_) => Some(ValueType::U8),
            ScanValue::U16(_) => Some(ValueType::U16),
            ScanValue::U32(_) => Some(ValueType::U32),
            ScanValue::I8(_) => Some(ValueType::I8),
            ScanValue::I16(_) => Some(ValueType::I16),
            ScanValue::I32(_) => Some(ValueType::I32),
            ScanValue::F32(_) => Some(ValueType::F32),
            ScanValue::PreviousValue => None,
        }
    }

    /// The number an exact value denotes (for `F32`, its bit pattern); `None` for
    /// `PreviousValue`.
    pub open spec fn spec_number(self) -> Option<int> {
        match self {
            ScanValue::U8(v) => Some(v as int),
            ScanValue::U16(v) => Some(v as int),
            ScanValue::U32(v) => Some(v as int),
            ScanValue::I8(v) => Some(v as int),
            ScanValue::I16(v) => Some(v as int),
            ScanValue::I32(v) => Some(v as int),
            ScanValue::F32(bits) => Some(bits as int),
            ScanValue::PreviousValue => None,
        }
    }

    /// Returns the value type of an exact value, or `None` for `PreviousValue`.
    pub fn value_type(self) -> (t: Option<ValueType>)
        ensures
            t == self.spec_value_type(),
    {
        match self {
            ScanValue::U8(_) => Some(ValueType::U8),
            ScanValue::U16(_) => Some(ValueType::U16),
            ScanValue::U32(_) => Some(ValueType::U32),
            ScanValue::I8(_) => Some(ValueType::I8),
            ScanValue::I16(_) => Some(ValueType::I16),
            ScanValue::I32(_) => Some(ValueType::I32),
            ScanValue::F32(_) => Some(ValueType::F32),
            ScanValue::PreviousValue => None,
        }
    }

    /// Returns the number an exact value denotes, widened to `i64`, or `None` for
    /// `PreviousValue`.
    pub(crate) fn number(self) -> (n: Option<i64>)
        ensures
            self.spec_number() == (match n {
                Some(x) => Some(x as int),
                None => None,
            }),
            self is F32 ==> (n matches Some(x) && 0 <= x <= u32::MAX),
    {
        match self {
            ScanValue::U8(v) => Some(v as i64),
            ScanValue::U16(v) => Some(v as i64),
            ScanValue::U32(v) => Some(v as i64),
            ScanValue::I8(v) => Some(v as i64),
            ScanValue::I16(v) => Some(v as i64),
            ScanValue::I32(v) => Some(v as i64),
            ScanValue::F32(bits) => Some(bits as i64),
            ScanValue::PreviousValue => None,
        }
    }
}

impl PartialEq for ScanValue {
    fn eq(&self, other: &Self) -> (r: bool) {
        match (*self, *other) {
            (ScanValue::U8(a), ScanValue::U8(b)) => a == b,
            (ScanValue::U16(a), ScanValue::U16(b)) => a == b,
            (ScanValue::U32(a), ScanValue::U32(b)) => a == b,
            (ScanValue::I8(a), ScanValue::I8(b)) => a == b,
            (ScanValue::I16(a), ScanValue::I16(b)) => a == b,
            (ScanValue::I32(a), ScanValue::I32(b)) => a == b,
            (ScanValue::F32(a), ScanValue::F32(b)) => ComparisonType::Eq.evaluate_f32(a, b),
            (ScanValue::PreviousValue, ScanValue::PreviousValue) => true,
            _ => false,
        }
    }
}

impl vstd::std_specs::cmp::PartialEqSpecImpl for ScanValue {
    open spec fn obeys_eq_spec() -> bool {
        true
    }

    /// Values of the same variant are equal when their payloads are; `F32` payloads compare
    /// as `f32` values (so NaN differs from itself and `+0.0` equals `-0.0`).
    open spec fn eq_spec(&self, other: &ScanValue) -> bool {
        match (*self, *other) {
            (ScanValue::U8(a), ScanValue::U8(b)) => a == b,
            (ScanValue::U16(a), ScanValue::U16(b)) => a == b,
            (ScanValue::U32(a), ScanValue::U32(b)) => a == b,
            (ScanValue::I8(a), ScanValue::I8(b)) => a == b,
            (ScanValue::I16(a), ScanValue::I16(b)) => a == b,
            (ScanValue::I32(a), ScanValue::I32(b)) => a == b,
            (ScanValue::F32(a), ScanValue::F32(b)) => ComparisonType::Eq.holds_f32(a, b),
            (ScanValue::PreviousValue, ScanValue::PreviousValue) => true,
            _ => false,
        }
    }
}

} // verus!
