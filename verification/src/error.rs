//! Error type of the INDI library.
use vstd::prelude::*;

verus! {

/// Error type for INDI protocol operations.
///
/// Errors that originate in I/O or in the XML layer carry their message as
/// text; the application layer converts the outside error values into it.
#[derive(Debug)]
pub enum Error {
    /// IO error
    Io(String),
    /// Message error
    Message(String),
    /// Protocol error
    Protocol(String),
    /// Property error
    Property(String),
    /// Parse error
    ParseError(String),
    /// XML error
    Xml(String),
    /// Invalid switch state
    InvalidSwitchState(String),
    /// UTF-8 error
    Utf8(String),
    /// XML deserialization error
    XmlDe(String),
    /// XML attribute error
    XmlAttr(String),
    /// Serialization error
    SerializationError(String),
    /// Number format error
    Format(String),
}

/// Result type for the crate
pub type Result<T> = core::result::Result<T, Error>;

} // verus!
