//! Messages and attributes shared by all property kinds.
pub mod basic;
pub mod message;

pub use crate::property::{PropertyPerm, PropertyState};
pub use basic::{DelProperty, GetProperties};
pub use message::Message;
