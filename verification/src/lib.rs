//! INDI (Instrument Neutral Distributed Interface) protocol library.
//!
//! The library models the INDI protocol's properties, messages and the
//! client-side property store, and proves the behaviour of its parsers,
//! formatters and state updates against specifications.
use vstd::prelude::*;

pub mod strings;
pub mod timestamp;
pub mod error;
pub mod entries;
pub mod format;
pub mod property;
pub mod xml;
pub mod message;
pub mod store;
pub mod client;
pub mod server;

verus! {

/// Version of the INDI protocol implemented by this library
pub const PROTOCOL_VERSION: &'static str = "1.7";

} // verus!
