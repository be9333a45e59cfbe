//! Decoder for the temperature/humidity sensor running the alternate
//! firmware, which broadcasts under a 16-bit service identifier.
//!
//! As with the other decoder, numeric fields are kept as the raw
//! fixed-point words of the payload; every field is always present.

use vstd::prelude::*;

use crate::bytes::le16;
use crate::bytes::read_le16;
use crate::error::DecodeError;

verus! {

/// Service identifier under which the sensor broadcasts.
pub const SERVICE_ID: u16 = 0x181a;

/// Offset of the first decoded field inside the service payload.
pub const FIELDS_OFFSET: usize = 6;

/// Fewest payload bytes a successful decode needs: the 6-byte preamble,
/// three 2-byte words and one single byte.
pub const MIN_LEN: usize = 13;

/// One decoded broadcast.
///
/// Scales: `temperature` is in hundredths of a degree Celsius (multiply by
/// 0.01 for °C); `humidity` is in hundredths of a percent; `battery_mv` is
/// in raw millivolts; `battery_percent` is a percentage as-is.
#[derive(Debug, Clone, Copy, PartialEq, Eq, Structural)]
pub struct Announcement {
    pub temperature: u16,
    pub humidity: u16,
    pub battery_mv: u16,
    pub battery_percent: u8,
}

/// The decode of `b`, field by field, as the decoder must produce it.
pub open spec fn spec_decode(b: Seq<u8>) -> Result<Announcement, DecodeError> {
    if b.len() < MIN_LEN {
        Err(DecodeError::Truncated)
    } else {
        Ok(Announcement {
            temperature: le16(b, 6),
            humidity: le16(b, 8),
            battery_mv: le16(b, 10),
            battery_percent: b[12],
        })
    }
}

impl Announcement {
    /// Decodes a service payload.
    ///
    /// Succeeds exactly when the payload holds every field; a shorter
    /// payload is rejected as truncated before anything past its end is
    /// touched.
    pub fn decode(b: &[u8]) -> (r: Result<Announcement, DecodeError>)
        ensures
            r == spec_decode(b@),
            r is Err <==> b@.len() < MIN_LEN,
    {
        if b.len() < FIELDS_OFFSET + 2 {
            return Err(DecodeError::Truncated);
        }
        let temperature = read_le16(b, 6);
        if b.len() < FIELDS_OFFSET + 4 {
            return Err(DecodeError::Truncated);
        }
        let humidity = read_le16(b, 8);
        if b.len() < FIELDS_OFFSET + 6 {
            return Err(DecodeError::Truncated);
        }
        let battery_mv = read_le16(b, 10);
        if b.len() < MIN_LEN {
            return Err(DecodeError::Truncated);
        }
        Ok(Announcement { temperature, humidity, battery_mv, battery_percent: b[12] })
    }
}

/// Decoding is a function of the bytes alone: equal payloads decode to
/// equal results, errors included.
pub proof fn lemma_decode_pure(a: Seq<u8>, b: Seq<u8>)
    requires
        a == b,
    ensures
        spec_decode(a) == spec_decode(b),
{
}

} // verus!
