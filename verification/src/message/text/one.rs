//! One text element.
use vstd::prelude::*;

verus! {

/// One text element used in new and set operations
#[derive(Debug, Clone, PartialEq)]
pub struct OneText {
    /// Name of this text element
    pub name: String,
    /// Text value
    pub value: String,
}

} // verus!
