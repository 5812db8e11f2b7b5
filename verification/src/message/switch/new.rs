//! New switch vectors.
use vstd::prelude::*;
use crate::timestamp::INDITimestamp;
use super::one::OneSwitch;

verus! {

/// New switch value
#[derive(Debug, Clone, PartialEq)]
pub struct NewSwitch {
    /// Switch name
    pub name: String,
    /// Switch state
    pub state: bool,
}

/// New switch vector
#[derive(Debug, Clone, PartialEq)]
pub struct NewSwitchVector {
    /// Device name
    pub device: String,
    /// Property name
    pub name: String,
    /// Property timestamp
    pub timestamp: Option<INDITimestamp>,
    /// Switch elements
    pub switches: Vec<OneSwitch>,
}

} // verus!
