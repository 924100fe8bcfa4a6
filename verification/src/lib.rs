//! MD5 message digest (RFC 1321), one-shot and streaming, with machine-checked
//! contracts.
//!
//! * [`model`] defines the digest mathematically: padding, the 64-step
//!   compression function and the fold over 64-byte blocks.
//! * [`stream`] describes the streaming accumulator as a state machine over a
//!   plain view of its fields.
//! * [`words`] and [`compression`] hold the executable building blocks.
//! * [`accumulator`] holds [`Md5`], whose methods are proved against the two
//!   models.
//! * [`laws`] proves that the state machine computes the digest of the
//!   concatenated input, however that input was cut into pieces.
//!
//! MD5 is cryptographically broken. It is offered for compatibility with
//! existing formats, not for security.

pub mod accumulator;
pub mod compression;
pub mod laws;
pub mod model;
pub mod stream;
pub mod words;

pub use accumulator::Md5;
