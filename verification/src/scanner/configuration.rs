use vstd::prelude::*;

use crate::scanner::alignment::Alignment;
use crate::scanner::comparison::{values_match, ComparisonType};
use crate::scanner::endianness::Endianness;
use crate::scanner::scan_error::ScanError;
use crate::scanner::value_reader::decode;
use crate::scanner::value_type::ValueType;

verus! {

/// Immutable scanner configuration shared across all scans.
///
/// Address model:
/// - `base_address` is a 32-bit public address prefix used for reported results.
/// - result addresses are `u32`.
/// - scanner construction fails with `ScanError::AddressOverflow` if candidate offsets combined
///   with `base_address` cannot be represented as `u32`.
#[derive(Clone, Copy, Debug, PartialEq, Eq, Structural)]
pub struct Configuration {
    pub value_type: ValueType,
    pub endianness: Endianness,
    pub alignment: Alignment,
    pub base_address: u32,
}

impl Configuration {
    /// The configuration with the value type, byte order and alignment of the given wire
    /// codes, or `TypeMismatch` when any code is unknown.
    pub open spec fn spec_from_codes(
        value_type: u8,
        endianness: u8,
        alignment: u8,
        base_address: u32,
    ) -> Result<Configuration, ScanError> {
        match (
            ValueType::from_code(value_type),
            Endianness::from_code(endianness),
            Alignment::from_code(alignment),
        ) {
            (Some(value_type), Some(endianness), Some(alignment)) => Ok(
                Configuration { value_type, endianness, alignment, base_address },
            ),
            _ => Err(ScanError::TypeMismatch),
        }
    }

    /// Builds a configuration from the wire codes of its value type, byte order and alignment.
    pub fn from_codes(value_type: u8, endianness: u8, alignment: u8, base_address: u32) -> (r:
        Result<Configuration, ScanError>)
        ensures
            r == Configuration::spec_from_codes(value_type, endianness, alignment, base_address),
            r matches Ok(c) ==> c.base_address == base_address && ValueType::from_code(value_type)
                == Some(c.value_type) && Endianness::from_code(endianness) == Some(c.endianness)
                && Alignment::from_code(alignment) == Some(c.alignment),
    {
        let value_type = match ValueType::try_from(value_type) {
            Ok(t) => t,
            Err(()) => return Err(ScanError::TypeMismatch),
        };
        let endianness = match Endianness::try_from(endianness) {
            Ok(e) => e,
            Err(()) => return Err(ScanError::TypeMismatch),
        };
        let alignment = match Alignment::try_from(alignment) {
            Ok(a) => a,
            Err(()) => return Err(ScanError::TypeMismatch),
        };
        Ok(Configuration { value_type, endianness, alignment, base_address })
    }

    /// Byte width of one value.
    pub open spec fn width(self) -> nat {
        self.value_type.spec_width()
    }

    /// Distance between two consecutive candidate offsets of a fresh scanner.
    pub open spec fn step(self) -> nat {
        match self.alignment {
            Alignment::Aligned => self.width(),
            Alignment::Unaligned => 1,
        }
    }

    /// Number of candidate offsets in a block of `len` bytes before any filtering.
    pub open spec fn candidate_count(self, len: nat) -> nat {
        if len < self.width() {
            0
        } else {
            ((len - self.width()) as nat / self.step() + 1) as nat
        }
    }

    /// The candidate offsets of a block of `len` bytes before any filtering: every multiple of
    /// the step at which a whole value fits, in increasing order.
    pub open spec fn implicit_offsets(self, len: nat) -> Seq<u32> {
        Seq::new(self.candidate_count(len), |k: int| (k * self.step()) as u32)
    }

    /// The greatest candidate offset of a block of `len` bytes.
    pub open spec fn last_offset(self, len: nat) -> int {
        (self.candidate_count(len) - 1) * self.step()
    }

    /// Why a scanner cannot be built on a block of `len` bytes, if it cannot.
    pub open spec fn creation_error(self, len: nat) -> Option<ScanError> {
        if len < self.width() {
            Some(ScanError::RamBlockTooSmall)
        } else if self.base_address + self.last_offset(len) > u32::MAX {
            Some(ScanError::AddressOverflow)
        } else {
            None
        }
    }

    /// Whether `offset` is a candidate offset in a block of `len` bytes: a whole value fits
    /// there, it is a multiple of the step, and its address fits in `u32`.
    pub open spec fn is_candidate(self, len: nat, offset: int) -> bool {
        &&& 0 <= offset
        &&& offset + self.width() <= len
        &&& offset % (self.step() as int) == 0
        &&& self.base_address + offset <= u32::MAX
    }

    /// The number that the value stored at `offset` in `block` denotes.
    pub open spec fn value_at(self, block: Seq<u8>, offset: int) -> int {
        decode(self.value_type, self.endianness, block.subrange(offset, offset + self.width()))
    }

    /// Whether the candidate at `offset` survives a scan: its value in `current` compared with
    /// `op` against `expected`, or against its value in `previous` when no value is expected.
    pub open spec fn passes(
        self,
        op: ComparisonType,
        expected: Option<int>,
        previous: Seq<u8>,
        current: Seq<u8>,
        offset: u32,
    ) -> bool {
        let rhs = match expected {
            Some(n) => n,
            None => self.value_at(previous, offset as int),
        };
        values_match(self.value_type, op, self.value_at(current, offset as int), rhs)
    }
}

} // verus!
