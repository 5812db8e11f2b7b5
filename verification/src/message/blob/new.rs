//! New BLOB vectors.
use vstd::prelude::*;
use crate::timestamp::INDITimestamp;
use super::one::OneBLOB;

verus! {

/// BLOB vector used to send new target BLOBs.
#[derive(Debug, Clone, PartialEq)]
pub struct NewBLOBVector {
    /// Device name
    pub device: String,
    /// Name of the property
    pub name: String,
    /// Timestamp
    pub timestamp: Option<INDITimestamp>,
    /// BLOB elements
    pub blobs: Vec<OneBLOB>,
}

} // verus!
