use vstd::prelude::*;

verus! {

/// Primitive value kinds supported by the scanner.
#[derive(Clone, Copy, Debug, PartialEq, Eq, Structural)]
pub enum ValueType {
    U8,
    U16,
    U32,
    I8,
    I16,
    I32,
    F32,
}

impl ValueType {
    /// Byte width of a value of this type inside a RAM block.
    pub open spec fn spec_width(self) -> nat {
        match self {
            ValueType::U8 | ValueType::I8 => 1,
            ValueType::U16 | ValueType::I16 => 2,
            ValueType::U32 | ValueType::I32 | ValueType::F32 => 4,
        }
    }

    /// Returns the byte width of this value type inside a RAM block.
    pub fn width(self) -> (w: usize)
        ensures
            w == self.spec_width(),
    {
        match self {
            ValueType::U8 | ValueType::I8 => 1,
            ValueType::U16 | ValueType::I16 => 2,
            ValueType::U32 | ValueType::I32 | ValueType::F32 => 4,
        }
    }

    /// The value type whose wire code is `code`, if any.
    pub open spec fn from_code(code: u8) -> Option<ValueType> {
        if code == 0 {
            Some(ValueType::U8)
        } else if code == 1 {
            Some(ValueType::U16)
        } else if code == 2 {
            Some(ValueType::U32)
        } else if code == 3 {
            Some(ValueType::I8)
        } else if code == 4 {
            Some(ValueType::I16)
        } else if code == 5 {
            Some(ValueType::I32)
        } else if code == 6 {
            Some(ValueType::F32)
        } else {
            None
        }
    }
}

impl TryFrom<u8> for ValueType {
    type Error = ();

    fn try_from(value: u8) -> (r: Result<Self, Self::Error>)
        ensures
            r == (match ValueType::from_code(value) {
                Some(v) => Ok(v),
                None => Err(()),
            }),
    {
        match value {
            0 => Ok(ValueType::U8),
            1 => Ok(ValueType::U16),
            2 => Ok(ValueType::U32),
            3 => Ok(ValueType::I8),
            4 => Ok(ValueType::I16),
            5 => Ok(ValueType::I32),
            6 => Ok(ValueType::F32),
            _ => Err(()),
        }
    }
}

impl vstd::std_specs::convert::TryFromSpecImpl<u8> for ValueType {
    open spec fn obeys_try_from_spec() -> bool {
        true
    }

    open spec fn try_from_spec(v: u8) -> Result<Self, Self::Error> {
        match ValueType::from_code(v) {
            Some(t) => Ok(t),
            None => Err(()),
        }
    }
}

} // verus!
