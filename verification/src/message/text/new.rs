//! New text vectors.
use vstd::prelude::*;
use crate::timestamp::INDITimestamp;
use super::one::OneText;

verus! {

/// New text vector command: informs the Device of new target values for a Property.
#[derive(Debug, Clone, PartialEq)]
pub struct NewTextVector {
    /// Device name
    pub device: String,
    /// Property name
    pub name: String,
    /// Moment when this message was generated
    pub timestamp: Option<INDITimestamp>,
    /// Text elements
    pub texts: Vec<OneText>,
}

} // verus!
