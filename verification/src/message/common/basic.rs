//! Requests to snoop and delete properties.
use vstd::prelude::*;
use crate::timestamp::INDITimestamp;

verus! {

/// Get properties request
///
/// Request to snoop properties from devices. If no device is specified,
/// properties from all devices will be returned. If no property name is specified,
/// all properties from the specified device(s) will be returned.
#[derive(Debug, Clone, PartialEq)]
pub struct GetProperties {
    /// Device to snoop, or all devices if absent
    pub device: Option<String>,
    /// Property of device to snoop, or all properties if absent
    pub name: Option<String>,
}

/// Delete property command
///
/// Delete the given property, or entire device if no property is specified.
#[derive(Debug, Clone, PartialEq)]
pub struct DelProperty {
    /// Required name of Device
    pub device: String,
    /// Name of property to delete. If absent, entire device is deleted
    pub name: Option<String>,
    /// Moment when this delete was generated
    pub timestamp: Option<INDITimestamp>,
    /// Optional commentary
    pub message: Option<String>,
}

} // verus!
