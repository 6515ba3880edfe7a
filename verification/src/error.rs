//! The closed set of decoding failures. Every variant carries what was
//! actually seen, so callers can tell the user-facing conditions apart.

use vstd::prelude::*;

verus! {

/// `std::io::Error`, carried opaquely inside [`GlbError::Io`]; the decoder
/// never inspects a value of it.
#[verifier::external_type_specification]
#[verifier::external_body]
pub struct ExIoError(std::io::Error);

/// A structured decoding failure.
#[derive(Debug)]
pub enum GlbError {
    /// The byte source failed, or ended inside a fixed-size field; wraps the
    /// underlying failure.
    Io(std::io::Error),
    /// The first four bytes were not the required magic; carries the bytes
    /// actually read.
    BadMagic([u8; 4]),
    /// The header's version field was not the supported value; carries the
    /// value actually read.
    UnsupportedVersion(u32),
    /// A declared length exceeded the bytes actually available; `ty` is the
    /// tag of the chunk being read, or `None` for the container-level check.
    LengthMismatch { ty: Option<[u8; 4]>, declared: u32, available: usize },
    /// A chunk's tag was not the one its position requires; carries the tag
    /// actually read.
    UnexpectedChunkType([u8; 4]),
}

/// Relies on `std::io::Error::from(ErrorKind)`: builds the error reported
/// when the input ends inside a fixed-size field.
#[verifier::external_body]
pub(crate) fn eof_error() -> std::io::Error {
    std::io::Error::from(std::io::ErrorKind::UnexpectedEof)
}

} // verus!
