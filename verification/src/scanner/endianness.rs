use vstd::prelude::*;

verus! {

/// Byte order used when reading multi-byte values from a RAM block.
#[derive(Clone, Copy, Debug, PartialEq, Eq, Structural)]
pub enum Endianness {
    Little,
    Big,
}

impl Endianness {
    /// The byte order whose wire code is `code`, if any.
    pub open spec fn from_code(code: u8) -> Option<Endianness> {
        if code == 0 {
            Some(Endianness::Little)
        } else if code == 1 {
            Some(Endianness::Big)
        } else {
            None
        }
    }
}

impl TryFrom<u8> for Endianness {
    type Error = ();

    fn try_from(value: u8) -> (r: Result<Self, Self::Error>)
        ensures
            r == (match Endianness::from_code(value) {
                Some(v) => Ok(v),
                None => Err(()),
            }),
    {
        match value {
            0 => Ok(Endianness::Little),
            1 => Ok(Endianness::Big),
            _ => Err(()),
        }
    }
}

impl vstd::std_specs::convert::TryFromSpecImpl<u8> for Endianness {
    open spec fn obeys_try_from_spec() -> bool {
        true
    }

    open spec fn try_from_spec(v: u8) -> Result<Self, Self::Error> {
        match Endianness::from_code(v) {
            Some(e) => Ok(e),
            None => Err(()),
        }
    }
}

} // verus!
