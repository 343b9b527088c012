//! Capture-session protocol core: the supervisor's target registry, the
//! capture-session state machine and the frame sink, together with the
//! agent-side hub and the planning helpers around them.

pub mod conversation;
pub mod dxgi;
pub mod encoder;
pub mod frame;
pub mod hooks;
pub mod host;
pub mod host_model;
pub mod hotkey;
pub mod hub;
pub mod inject;
pub mod laws;
pub mod lifecycle;
pub mod registry;
pub mod runner;
pub mod safe_env;
pub mod session;
pub mod settings;
pub mod sink;
pub mod source;
pub mod wincap;
pub mod wire;
