//! Verified core of the Pi4gpio hardware-access daemon: client identity,
//! per-bus ownership, the wire protocol's request rules and responses, the
//! per-connection session logic, and the register arithmetic of the hardware
//! layer.
pub mod client;
pub mod lock;
pub mod protocol;
pub mod hw;
pub mod edges;
pub mod session;
pub mod config;
pub mod startup;
