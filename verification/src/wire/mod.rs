//! The wire codec: the generic value, its bytes, and the two envelopes.

pub mod codec;
pub mod envelope;
pub mod value;
