//! Light properties.
pub mod define;

pub use define::{DefLight, DefLightVector};
