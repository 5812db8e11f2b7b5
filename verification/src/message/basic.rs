//! Basic protocol requests and raw messages.
use vstd::prelude::*;

verus! {

/// Properties request message
#[derive(Debug, Clone, PartialEq)]
pub struct GetProperties {
    /// Version of the INDI protocol
    pub version: String,
    /// Device to get properties for
    pub device: Option<String>,
    /// Name of the property to get
    pub name: Option<String>,
}

/// Set property message
#[derive(Debug, Clone, PartialEq)]
pub struct SetProperty {
    /// Raw XML content of the message
    pub content: String,
}

/// General message
#[derive(Debug, Clone, PartialEq)]
pub struct Message {
    /// Raw XML content of the message
    pub content: String,
}

/// Delete property message
#[derive(Debug, Clone, PartialEq)]
pub struct DelProperty {
    /// Device name
    pub device: String,
}

} // verus!
