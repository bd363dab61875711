//! Framing for the abridged transport: payloads of whole 4-byte words are
//! wrapped in self-delimiting envelopes, and envelopes are found again in a
//! stream of bytes that may end anywhere.

pub mod abridged;
pub mod buffers;
pub mod laws;
pub mod wire;

pub use abridged::Abridged;
pub use abridged::Error;
