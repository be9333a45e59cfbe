//! Errors a payload decoder can report.

use vstd::prelude::*;

verus! {

/// Why a payload failed to decode.
#[derive(Debug, Clone, Copy, PartialEq, Eq, Structural)]
pub enum DecodeError {
    /// The payload ended before the next field could be read.
    Truncated,
}

} // verus!
