//! Switch properties.
pub mod define;
pub mod new;
pub mod one;

pub use crate::property::{SwitchRule, SwitchState};
pub use define::DefSwitch;
pub use new::{NewSwitch, NewSwitchVector};
pub use one::OneSwitch;
