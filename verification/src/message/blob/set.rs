//! Set BLOB vectors.
use vstd::prelude::*;
use crate::property::PropertyState;
use crate::timestamp::INDITimestamp;
use super::one::OneBLOB;

verus! {

/// BLOB vector used to report a BLOB's current value.
#[derive(Debug, Clone, PartialEq)]
pub struct SetBLOBVector {
    /// Device name
    pub device: String,
    /// Name of the property
    pub name: String,
    /// State of the property
    pub state: PropertyState,
    /// Timestamp
    pub timestamp: Option<INDITimestamp>,
    /// Message
    pub message: Option<String>,
    /// BLOB elements
    pub blobs: Vec<OneBLOB>,
}

} // verus!
