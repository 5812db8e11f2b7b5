//! Set-value messages whose elements carry no numbers.
use vstd::prelude::*;
use crate::message::new::{OneBlob, OneLight, OneText};
use crate::timestamp::INDITimestamp;

verus! {

/// Set text vector message
#[derive(Debug, Clone, PartialEq)]
pub struct SetTextVector {
    /// Device name
    pub device: String,
    /// Property name
    pub name: String,
    /// Property timestamp
    pub timestamp: INDITimestamp,
    /// Text elements
    pub texts: Vec<OneText>,
}

/// Set light vector message
#[derive(Debug, Clone, PartialEq)]
pub struct SetLightVector {
    /// Device name
    pub device: String,
    /// Property name
    pub name: String,
    /// Property timestamp
    pub timestamp: INDITimestamp,
    /// Light elements
    pub lights: Vec<OneLight>,
}

/// Set blob vector message
#[derive(Debug, Clone, PartialEq)]
pub struct SetBlobVector {
    /// Device name
    pub device: String,
    /// Property name
    pub name: String,
    /// Property timestamp
    pub timestamp: INDITimestamp,
    /// BLOB elements
    pub blobs: Vec<OneBlob>,
}

} // verus!
