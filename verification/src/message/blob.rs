//! BLOB (binary large object) messages.
pub mod define;
pub mod enable;
pub mod new;
pub mod one;
pub mod set;

pub use define::DefBLOB;
pub use enable::{BLOBEnable, EnableBlob};
pub use new::NewBLOBVector;
pub use one::OneBLOB;
pub use set::SetBLOBVector;
