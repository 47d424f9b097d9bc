use vstd::prelude::*;

verus! {

/// Address stepping strategy used when enumerating scan candidates.
#[derive(Clone, Copy, Debug, PartialEq, Eq, Structural)]
pub enum Alignment {
    Unaligned,
    Aligned,
}

impl Alignment {
    /// The alignment whose wire code is `code`, if any.
    pub open spec fn from_code(code: u8) -> Option<Alignment> {
        if code == 0 {
            Some(Alignment::Unaligned)
        } else if code == 1 {
            Some(Alignment::Aligned)
        } else {
            None
        }
    }
}

impl TryFrom<u8> for Alignment {
    type Error = ();

    fn try_from(value: u8) -> (r: Result<Self, Self::Error>)
        ensures
            r == (match Alignment::from_code(value) {
                Some(v) => Ok(v),
                None => Err(()),
            }),
    {
        match value {
            0 => Ok(Alignment::Unaligned),
            1 => Ok(Alignment::Aligned),
            _ => Err(()),
        }
    }
}

impl vstd::std_specs::convert::TryFromSpecImpl<u8> for Alignment {
    open spec fn obeys_try_from_spec() -> bool {
        true
    }

    open spec fn try_from_spec(v: u8) -> Result<Self, Self::Error> {
        match Alignment::from_code(v) {
            Some(a) => Ok(a),
            None => Err(()),
        }
    }
}

} // verus!
