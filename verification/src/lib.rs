//! Verified core of a small service manager: service configurations and the
//! process lifecycle decisions around them, the binary request protocol spoken
//! over the control socket, and the daemon's request handling.

pub mod ids;
pub mod text;
pub mod service;
pub mod wire;
pub mod protocol;
pub mod daemon;
pub mod api;
