//! Window-placement core: named actions, fraction-based geometry, the snap state machine,
//! default shortcut binds and the configuration rules that layer user overrides over them.

pub mod actions;
pub mod config;
pub mod geometry;
pub mod overrides;
pub mod platform;
pub mod shortcuts;
pub mod state;
pub mod text;
