//! Decoding, state tracking and output planning for short-range radio
//! broadcasts from environmental sensors.
//!
//! The library is transport-agnostic: it works on plain byte payloads,
//! integer device identifiers and millisecond timestamps. A thin binary
//! around it does the radio I/O and the textual serialization.

pub mod aranet4;
pub mod bytes;
pub mod error;
pub mod event;
pub mod mitherm;
pub mod output;
pub mod project;
pub mod reading;
pub mod store;
