//! BLOB element definitions.
use vstd::prelude::*;

verus! {

/// BLOB element in a BLOB vector
#[derive(Debug, Clone, PartialEq)]
pub struct DefBLOB {
    /// BLOB name
    pub name: String,
    /// BLOB label
    pub label: Option<String>,
}

} // verus!
