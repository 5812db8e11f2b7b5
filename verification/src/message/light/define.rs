//! Light vector definitions.
use vstd::prelude::*;
use crate::property::PropertyState;
use crate::timestamp::INDITimestamp;

verus! {

/// Light element in a light vector
#[derive(Debug, Clone, PartialEq)]
pub struct DefLight {
    /// Light name
    pub name: String,
    /// Light label
    pub label: Option<String>,
    /// Light state
    pub state: PropertyState,
}

/// Light vector definition that follows the INDI protocol DTD specification.
#[derive(Debug, Clone, PartialEq)]
pub struct DefLightVector {
    /// Device name
    pub device: String,
    /// Name of the property
    pub name: String,
    /// Label of the property
    pub label: Option<String>,
    /// Group of the property
    pub group: Option<String>,
    /// State of the property
    pub state: PropertyState,
    /// Timestamp
    pub timestamp: Option<INDITimestamp>,
    /// Message
    pub message: Option<String>,
    /// Light elements
    pub lights: Vec<DefLight>,
}

} // verus!
