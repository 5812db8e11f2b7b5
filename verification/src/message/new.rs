//! Elements and vectors of new-value messages.
use vstd::prelude::*;
use crate::property::{PropertyState, SwitchState};

verus! {

/// Switch element in a new switch vector
#[derive(Debug, Clone, PartialEq)]
pub struct OneSwitch {
    /// Switch name
    pub name: String,
    /// Switch state
    pub value: SwitchState,
}

/// New switch vector message
#[derive(Debug, Clone, PartialEq)]
pub struct NewSwitchVector {
    /// Device name
    pub device: String,
    /// Property name
    pub name: String,
    /// Property timestamp
    pub timestamp: String,
    /// Switch elements
    pub elements: Vec<OneSwitch>,
}

/// New text vector message
#[derive(Debug, Clone, PartialEq)]
pub struct NewTextVector {
    /// Device name
    pub device: String,
    /// Property name
    pub name: String,
    /// Property timestamp
    pub timestamp: String,
    /// Text elements
    pub elements: Vec<OneText>,
}

/// New number vector message
#[derive(Debug, Clone, PartialEq)]
pub struct NewNumberVector {
    /// Device name
    pub device: String,
    /// Property name
    pub name: String,
    /// Property timestamp
    pub timestamp: String,
    /// Number elements
    pub elements: Vec<OneNumber>,
}

/// Text element in a new text vector
#[derive(Debug, Clone, PartialEq)]
pub struct OneText {
    /// Text name
    pub name: String,
    /// Text value
    pub value: String,
}

/// Number element in a new number vector
#[derive(Debug, Clone, PartialEq)]
pub struct OneNumber {
    /// Number name
    pub name: String,
    /// Number value
    pub value: String,
}

/// Light element in a new light vector
#[derive(Debug, Clone, PartialEq)]
pub struct OneLight {
    /// Light name
    pub name: String,
    /// Light value
    pub value: PropertyState,
}

/// BLOB element in a new BLOB vector
#[derive(Debug, Clone, PartialEq)]
pub struct OneBlob {
    /// BLOB name
    pub name: String,
    /// BLOB size
    pub size: usize,
    /// BLOB format
    pub format: String,
    /// BLOB value
    pub value: Vec<u8>,
}

} // verus!
