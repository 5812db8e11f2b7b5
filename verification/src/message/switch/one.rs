//! One switch element.
use vstd::prelude::*;
use crate::property::SwitchState;

verus! {

/// One switch element used in new and set operations
#[derive(Debug, Clone, PartialEq)]
pub struct OneSwitch {
    /// Name of this switch element
    pub name: String,
    /// Switch state
    pub value: SwitchState,
}

} // verus!
