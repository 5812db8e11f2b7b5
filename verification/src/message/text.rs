//! Text properties.
pub mod define;
pub mod new;
pub mod one;

pub use define::DefText;
pub use new::NewTextVector;
pub use one::OneText;
