//! The closed set of decoded readings, one variant per supported sensor
//! kind, and the timestamped form the store keeps.

use vstd::prelude::*;

use crate::aranet4;
use crate::error::DecodeError;
use crate::mitherm;

verus! {

/// One decoded reading from any supported sensor kind.
#[derive(Debug, Clone, Copy, PartialEq, Eq)]
pub enum Reading {
    Aranet4(aranet4::Announcement),
    MiTherm(mitherm::Announcement),
}

/// A reading together with the moment it was captured, in milliseconds on
/// the process's monotonic clock.
#[derive(Debug, Clone, Copy, PartialEq, Eq)]
pub struct TimedReading {
    pub captured_at: u64,
    pub reading: Reading,
}

/// A decoder kind a vendor key can dispatch to.
#[derive(Debug, Clone, Copy, PartialEq, Eq, Structural)]
pub enum Kind {
    Aranet4,
    MiTherm,
}

/// Which of the two 16-bit key spaces a frame's vendor key lives in.
#[derive(Debug, Clone, Copy, PartialEq, Eq, Structural)]
pub enum Framing {
    Manufacturer,
    Service,
}

/// The decoder kind a vendor key dispatches to, if any. Unknown keys map
/// to nothing: they are ignored, not errors.
pub open spec fn spec_kind_for(framing: Framing, key: u16) -> Option<Kind> {
    match framing {
        Framing::Manufacturer => if key == aranet4::MANUFACTURER_ID {
            Some(Kind::Aranet4)
        } else {
            None
        },
        Framing::Service => if key == mitherm::SERVICE_ID {
            Some(Kind::MiTherm)
        } else {
            None
        },
    }
}

/// Dispatches a vendor key to its decoder kind.
pub fn kind_for(framing: Framing, key: u16) -> (r: Option<Kind>)
    ensures
        r == spec_kind_for(framing, key),
{
    match framing {
        Framing::Manufacturer => if key == aranet4::MANUFACTURER_ID {
            Some(Kind::Aranet4)
        } else {
            None
        },
        Framing::Service => if key == mitherm::SERVICE_ID {
            Some(Kind::MiTherm)
        } else {
            None
        },
    }
}

/// The decode of `b` under the given kind.
pub open spec fn spec_decode_kind(kind: Kind, b: Seq<u8>) -> Result<Reading, DecodeError> {
    match kind {
        Kind::Aranet4 => match aranet4::spec_decode(b) {
            Ok(a) => Ok(Reading::Aranet4(a)),
            Err(e) => Err(e),
        },
        Kind::MiTherm => match mitherm::spec_decode(b) {
            Ok(a) => Ok(Reading::MiTherm(a)),
            Err(e) => Err(e),
        },
    }
}

/// Decodes a payload with the decoder the kind names. Pure: the result is
/// a function of the kind and the bytes alone.
pub fn decode_kind(kind: Kind, b: &[u8]) -> (r: Result<Reading, DecodeError>)
    ensures
        r == spec_decode_kind(kind, b@),
{
    match kind {
        Kind::Aranet4 => match aranet4::Announcement::decode(b) {
            Ok(a) => Ok(Reading::Aranet4(a)),
            Err(e) => Err(e),
        },
        Kind::MiTherm => match mitherm::Announcement::decode(b) {
            Ok(a) => Ok(Reading::MiTherm(a)),
            Err(e) => Err(e),
        },
    }
}

} // verus!
