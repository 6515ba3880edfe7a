//! Decoder for a binary container that packages a JSON scene description
//! together with an optional raw binary payload in a single byte stream.
//!
//! The container starts with a fixed 12-byte header (magic, version, declared
//! length) followed by a mandatory JSON chunk and an optional binary chunk,
//! each prefixed by a little-endian length and a four-byte tag. The decoder
//! validates the framing and hands the two payloads back as zero-copy views
//! of the input; it never panics on malformed input, and the streaming entry
//! point never lets the caller observe bytes that were not confirmed read.

pub mod container;
pub mod error;
pub mod laws;
pub mod model;
mod stream;

pub use container::{Glb, Header};
pub use error::GlbError;
