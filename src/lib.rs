//! Controller core: length-prefixed framing, the envelope wire format, the
//! agent registry and the per-stream protocol decisions.

pub mod config;
pub mod frame;
pub mod identity;
pub mod wire;
pub mod envelope;
pub mod registry;
pub mod stream;
