//! Control of BLOB transfer.
use vstd::prelude::*;

verus! {

/// BLOB enable values
#[derive(Debug, Clone, Copy, PartialEq, Eq, Structural)]
pub enum BLOBEnable {
    /// Never send BLOB data
    Never,
    /// Send BLOB data along with other messages
    Also,
    /// Only send BLOB data
    Only,
}

/// Enable BLOB message
#[derive(Debug, Clone, PartialEq)]
pub struct EnableBlob {
    /// Device name
    pub device: String,
    /// Property name
    pub name: String,
    /// BLOB enable value
    pub enable: BLOBEnable,
}

} // verus!
