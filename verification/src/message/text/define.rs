//! Text element definitions.
use vstd::prelude::*;

verus! {

/// Define one member of a text vector: a name, an optional label (the name
/// is used when absent), and a text value.
#[derive(Debug, Clone, PartialEq)]
pub struct DefText {
    /// Name of this text element
    pub name: String,
    /// GUI label, or use name by default
    pub label: Option<String>,
    /// Text value
    pub value: String,
}

} // verus!
