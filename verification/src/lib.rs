//! Memory scanning in the classic cheat-search style: start from a RAM block,
//! then narrow the set of candidate addresses over successive scans.
pub mod scanner;

pub use scanner::{
    Alignment, ComparisonType, Configuration, Endianness, ScanError, ScanState, ScanValue, Scanner,
    ValueType,
};
