//! Messages associated with a device or with the entire system.
use vstd::prelude::*;

use crate::timestamp::INDITimestamp;

verus! {

/// A message associated with a device or entire system
#[derive(Debug, Clone, PartialEq)]
pub struct Message {
    /// Device name (if absent, message is considered site-wide)
    pub device: Option<String>,
    /// Timestamp when this message was generated
    pub timestamp: Option<INDITimestamp>,
    /// Message text/commentary
    pub message: Option<String>,
}

impl Message {
    /// Create a new site-wide message
    pub fn new(message: String) -> (r: Self)
        ensures
            r == (Message { device: None, timestamp: None, message: Some(message) }),
    {
        Self { device: None, timestamp: None, message: Some(message) }
    }

    /// Create a new device-specific message
    pub fn new_for_device(device: String, message: String) -> (r: Self)
        ensures
            r == (Message { device: Some(device), timestamp: None, message: Some(message) }),
    {
        Self { device: Some(device), timestamp: None, message: Some(message) }
    }

    /// Set the timestamp
    pub fn with_timestamp(self, timestamp: INDITimestamp) -> (r: Self)
        ensures
            r == (Message { timestamp: Some(timestamp), ..self }),
    {
        let mut m = self;
        m.timestamp = Some(timestamp);
        m
    }
}

} // verus!
