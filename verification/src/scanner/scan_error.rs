use vstd::prelude::*;

verus! {

/// Errors that can occur while constructing or scanning a [`Scanner`](crate::Scanner).
#[derive(Clone, Copy, Debug, PartialEq, Eq, Structural)]
pub enum ScanError {
    /// The provided value does not match the configured [`ValueType`](crate::ValueType).
    ///
    /// Triggered when a scan is requested with a [`ScanValue`](crate::ScanValue) whose variant is
    /// incompatible with the scanner configuration.
    TypeMismatch,
    /// The provided bytes are not long enough to be converted into [`ValueType`](crate::ValueType).
    InvalidValueLength,
    /// A computed result address could not fit in `u32`.
    ///
    /// Triggered during scanner initialization when the last candidate offset, added to the
    /// configured base address, exceeds `u32::MAX`.
    AddressOverflow,
    /// A null pointer was passed through an FFI boundary where a valid RAM block was required.
    NullPointer,
    /// The provided RAM block length does not match the scanner's stored baseline length.
    InvalidRamBlockLength,
    /// `PreviousValue` was used where an immediate exact-value initialization was required.
    InitialScanValueRequired,
    /// The provided RAM block is too small to hold even one value of the configured type.
    RamBlockTooSmall,
    /// `PreviousValue` was used in a scan that does not take a new RAM block.
    PreviousValueRequiresNewBlock,
}

impl ScanError {
    /// The stable numeric code of each error, as reported through the C interface
    /// (where `0` means success).
    pub open spec fn spec_code(self) -> u8 {
        match self {
            ScanError::TypeMismatch => 1,
            ScanError::InvalidValueLength => 2,
            ScanError::AddressOverflow => 3,
            ScanError::NullPointer => 4,
            ScanError::InvalidRamBlockLength => 5,
            ScanError::InitialScanValueRequired => 6,
            ScanError::RamBlockTooSmall => 7,
            ScanError::PreviousValueRequiresNewBlock => 8,
        }
    }

    /// Returns the stable numeric code of this error.
    pub fn code(self) -> (c: u8)
        ensures
            c == self.spec_code(),
            1 <= c <= 8,
    {
        match self {
            ScanError::TypeMismatch => 1,
            ScanError::InvalidValueLength => 2,
            ScanError::AddressOverflow => 3,
            ScanError::NullPointer => 4,
            ScanError::InvalidRamBlockLength => 5,
            ScanError::InitialScanValueRequired => 6,
            ScanError::RamBlockTooSmall => 7,
            ScanError::PreviousValueRequiresNewBlock => 8,
        }
    }
}

/// Distinct errors have distinct codes, and no code is `0` (the success code).
pub proof fn lemma_error_codes_distinct(a: ScanError, b: ScanError)
    ensures
        a.spec_code() != 0,
        a.spec_code() == b.spec_code() <==> a == b,
{
}

} // verus!
