//! Orientation event pipeline for accelerometer-driven actions: the configuration
//! tree and its fallback merge, the typed configuration, the normalization of
//! orientation names, the choice of action, and the debounce state machine.

pub mod config;
pub mod dispatch;
pub mod doc;
pub mod merge;
pub mod normalize;
pub mod watch;
