//! Decoder for the CO2/temperature/pressure/humidity sensor's broadcast
//! payload.
//!
//! Numeric fields are kept as the raw fixed-point words of the payload so
//! that the whole decoder works on plain integers; the scale of each field
//! is documented on the struct. Optional fields use a sentinel bit in the
//! raw word; the decoder turns them into explicit `Option`s.

use vstd::prelude::*;

use crate::bytes::le16;
use crate::bytes::read_le16;
use crate::error::DecodeError;

verus! {

/// Manufacturer identifier under which the sensor broadcasts.
pub const MANUFACTURER_ID: u16 = 0x0702;

/// Offset of the first decoded field inside the manufacturer payload.
pub const FIELDS_OFFSET: usize = 8;

/// Fewest payload bytes a successful decode needs: the 8-byte preamble,
/// three 2-byte words and three single bytes.
pub const MIN_LEN: usize = 17;

/// One decoded broadcast.
///
/// Scales: `co2` is in ppm as-is; `temperature` is in fiftieths of a degree
/// Celsius (multiply by 0.05 for °C); `pressure` is in tenths of a
/// hectopascal (multiply by 0.1 for hPa); `humidity` and `battery` are
/// percentages as-is; `status` is an opaque code passed through.
#[derive(Debug, Clone, Copy, PartialEq, Eq)]
pub struct Announcement {
    pub co2: Option<u16>,
    pub temperature: Option<u16>,
    pub pressure: Option<u16>,
    pub humidity: u8,
    pub battery: u8,
    pub status: u8,
}

/// Whether the raw co2 word marks the value absent: bit 15 set.
pub open spec fn co2_absent(w: u16) -> bool {
    w & 0x8000 != 0
}

/// Whether the raw temperature word marks the value absent: bit 14 set.
pub open spec fn temperature_absent(w: u16) -> bool {
    w & 0x4000 != 0
}

/// Whether the raw pressure word marks the value absent: bit 15 set.
pub open spec fn pressure_absent(w: u16) -> bool {
    w & 0x8000 != 0
}

/// The decode of `b`, field by field, as the decoder must produce it.
pub open spec fn spec_decode(b: Seq<u8>) -> Result<Announcement, DecodeError> {
    if b.len() < MIN_LEN {
        Err(DecodeError::Truncated)
    } else {
        let co2_w = le16(b, 8);
        let temp_w = le16(b, 10);
        let press_w = le16(b, 12);
        Ok(Announcement {
            co2: if co2_absent(co2_w) { None } else { Some(co2_w) },
            temperature: if temperature_absent(temp_w) { None } else { Some(temp_w) },
            pressure: if pressure_absent(press_w) { None } else { Some(press_w) },
            humidity: b[14],
            battery: b[15],
            status: b[16],
        })
    }
}

impl Announcement {
    /// Decodes a manufacturer payload.
    ///
    /// Succeeds exactly when the payload holds every field; a shorter
    /// payload is rejected as truncated before anything past its end is
    /// touched.
    pub fn decode(b: &[u8]) -> (r: Result<Announcement, DecodeError>)
        ensures
            r == spec_decode(b@),
            r is Err <==> b@.len() < MIN_LEN,
    {
        if b.len() < FIELDS_OFFSET + 2 {
            return Err(DecodeError::Truncated);
        }
        let co2_w = read_le16(b, 8);
        if b.len() < FIELDS_OFFSET + 4 {
            return Err(DecodeError::Truncated);
        }
        let temp_w = read_le16(b, 10);
        if b.len() < FIELDS_OFFSET + 6 {
            return Err(DecodeError::Truncated);
        }
        let press_w = read_le16(b, 12);
        if b.len() < MIN_LEN {
            return Err(DecodeError::Truncated);
        }
        Ok(Announcement {
            co2: if co2_w & 0x8000 != 0 { None } else { Some(co2_w) },
            temperature: if temp_w & 0x4000 != 0 { None } else { Some(temp_w) },
            pressure: if press_w & 0x8000 != 0 { None } else { Some(press_w) },
            humidity: b[14],
            battery: b[15],
            status: b[16],
        })
    }

    /// The temperature in hundredths of a degree Celsius, when present.
    pub fn temperature_centi_c(&self) -> (r: Option<u32>)
        ensures
            r == (match self.temperature {
                Some(w) => Some((w * 5) as u32),
                None => None::<u32>,
            }),
    {
        match self.temperature {
            Some(w) => Some(w as u32 * 5),
            None => None,
        }
    }
}

/// Decoding is a function of the bytes alone: equal payloads decode to
/// equal results, errors included.
pub proof fn lemma_decode_pure(a: Seq<u8>, b: Seq<u8>)
    requires
        a == b,
    ensures
        spec_decode(a) == spec_decode(b),
{
}

/// The co2 sentinel is independent of the other bits: setting bit 15 of
/// the raw word forces the field absent, clearing it always yields the
/// word as a present value.
pub proof fn lemma_co2_sentinel(w: u16)
    ensures
        co2_absent(w | 0x8000),
        !co2_absent(w & 0x7fff),
{
    assert((w | 0x8000) & 0x8000 != 0) by (bit_vector);
    assert((w & 0x7fff) & 0x8000 == 0) by (bit_vector);
}

/// The temperature sentinel is independent of the other bits: setting bit
/// 14 of the raw word forces the field absent, clearing it always yields a
/// present value.
pub proof fn lemma_temperature_sentinel(w: u16)
    ensures
        temperature_absent(w | 0x4000),
        !temperature_absent(w & 0xbfff),
{
    assert((w | 0x4000) & 0x4000 != 0) by (bit_vector);
    assert((w & 0xbfff) & 0x4000 == 0) by (bit_vector);
}

/// The pressure sentinel is independent of the other bits: setting bit 15
/// of the raw word forces the field absent, clearing it always yields a
/// present value.
pub proof fn lemma_pressure_sentinel(w: u16)
    ensures
        pressure_absent(w | 0x8000),
        !pressure_absent(w & 0x7fff),
{
    assert((w | 0x8000) & 0x8000 != 0) by (bit_vector);
    assert((w & 0x7fff) & 0x8000 == 0) by (bit_vector);
}

} // verus!
