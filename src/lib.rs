//! Sliding acknowledgment window over 16-bit wrapping sequence numbers.
//!
//! A tracker takes the sequence numbers of packets as they arrive, in any
//! order and with gaps, and keeps the newest one together with a 32-bit field
//! that tells which of the 32 numbers just before it have been seen.
pub mod model;
pub mod external_ack;
pub mod laws;

pub use model::AckState;
pub use external_ack::ExternalAcks;
