//! The entry point over a readable byte stream, with the buffer-reuse safety
//! logic: the caller-supplied buffer is grown before the payload read, and on
//! any failure of that read its reported length is reset to zero, so the
//! caller can never observe bytes that were not confirmed read.

use vstd::prelude::*;

use crate::container::{opt_bytes_view, Glb, Header};
use crate::error::GlbError;
use crate::model::{is_gltf_magic, le32, split_outcome, Outcome};

verus! {

/// Relies on `std::io::Read::read_exact`: on `Ok` the four bytes were filled
/// from the stream; what they hold depends on the stream alone, so nothing is
/// stated of them.
#[verifier::external_body]
fn read4<R: std::io::Read>(reader: &mut R) -> Result<[u8; 4], std::io::Error> {
    let mut bytes = [0u8; 4];
    match reader.read_exact(&mut bytes) {
        Ok(()) => Ok(bytes),
        Err(e) => Err(e),
    }
}

/// Relies on `std::io::Read::read`: reads into the front of the buffer and
/// returns how many bytes were read, never more than the buffer's length; the
/// buffer's length itself cannot change. What the bytes hold depends on the
/// stream alone, so nothing is stated of the contents.
#[verifier::external_body]
fn read_into<R: std::io::Read>(reader: &mut R, buf: &mut Vec<u8>) -> (r: Result<
    usize,
    std::io::Error,
>)
    ensures
        final(buf)@.len() == old(buf)@.len(),
        r matches Ok(n) ==> n <= old(buf)@.len(),
{
    reader.read(buf.as_mut_slice())
}

impl Header {
    /// Decodes the fixed 12-byte header directly from a stream. As with the
    /// slice form, only the magic is validated here. The stream decides what
    /// the bytes are, so the contract states what holds of every outcome.
    fn from_reader<R: std::io::Read>(reader: &mut R) -> (r: Result<Header, GlbError>)
        ensures
            r matches Ok(h) ==> is_gltf_magic(h.magic@),
            r matches Err(e) ==> (e is Io || (e matches GlbError::BadMagic(m) && !is_gltf_magic(
                m@,
            ))),
    {
        let magic = match read4(reader) {
            Ok(m) => m,
            Err(e) => return Err(GlbError::Io(e)),
        };
        if !(magic[0] == 0x67 && magic[1] == 0x6c && magic[2] == 0x54 && magic[3] == 0x46) {
            return Err(GlbError::BadMagic(magic));
        }
        let vb = match read4(reader) {
            Ok(b) => b,
            Err(e) => return Err(GlbError::Io(e)),
        };
        let lb = match read4(reader) {
            Ok(b) => b,
            Err(e) => return Err(GlbError::Io(e)),
        };
        Ok(Header { magic, version: u32_from_le(vb), length: u32_from_le(lb) })
    }
}

/// Assembles the unsigned 32-bit little-endian value held in four bytes.
fn u32_from_le(b: [u8; 4]) -> (x: u32)
    ensures
        x as int == le32(b@, 0),
{
    let b0 = b[0] as u32;
    let b1 = b[1] as u32;
    let b2 = b[2] as u32;
    let b3 = b[3] as u32;
    b0 + b1 * 0x100 + b2 * 0x10000 + b3 * 0x1000000
}

impl<'a> Glb<'a> {
    /// Decodes a container from a readable byte stream into the caller's
    /// reusable buffer, then splits it exactly as [`Glb::from_slice`] would.
    /// The chunk views of a successful result borrow from `buf`, which must
    /// stay alive and unmodified for as long as the result is used.
    ///
    /// The buffer is logically cleared before it is filled. On any failure
    /// the caller observes no partially-read bytes: the buffer is either
    /// exactly as it was handed in (header failure, unsupported version) or
    /// has length zero (the stream failed, or delivered fewer bytes than the
    /// header declared). After a failed chunk split the buffer keeps the
    /// fully-read payload, as the split outcome of its contents states.
    pub fn from_reader<R: std::io::Read>(reader: R, buf: &'a mut Vec<u8>) -> (r: Result<
        Glb<'a>,
        GlbError,
    >)
        ensures
            (r matches Ok(g) ==> (is_gltf_magic(g.header.magic@) && g.header.version == 2
                && final(buf)@.len() == g.header.length
                && (split_outcome(final(buf)@) matches Outcome::Accepted { json, bin }
                && g.json@ == json && opt_bytes_view(g.bin) == bin))),
            r matches Err(e) ==> (final(buf)@ == old(buf)@ || final(buf)@.len() == 0 || !(
            split_outcome(final(buf)@) is Accepted)),
            (r matches Err(e) ==> (e matches GlbError::BadMagic(m) ==> (!is_gltf_magic(m@)
                && final(buf)@ == old(buf)@))),
            (r matches Err(e) ==> (e matches GlbError::UnsupportedVersion(v) ==> (v != 2
                && final(buf)@ == old(buf)@))),
            (r matches Err(e) && e is Io ==> (final(buf)@ == old(buf)@ || final(buf)@.len() == 0
                || split_outcome(final(buf)@) is Truncated)),
            (r matches Err(e) ==> (e matches GlbError::LengthMismatch { ty: None, .. }
                ==> final(buf)@.len() == 0)),
            (r matches Err(e) ==> (e matches GlbError::UnexpectedChunkType(t) ==> (split_outcome(
                final(buf)@) matches Outcome::RejectedChunkType(t2) && t2 == t@))),
            (r matches Err(e) ==> (e matches GlbError::LengthMismatch {
                ty: Some(t4),
                declared: d,
                available: a,
            } ==> (split_outcome(final(buf)@) matches Outcome::RejectedLength {
                ty: ty2,
                declared: d2,
                available: a2,
            } && ty2 == Some(t4@) && d2 == d as int && a2 == a as int))),
    {
        let mut reader = reader;
        let header = match Header::from_reader(&mut reader) {
            Ok(h) => h,
            Err(e) => return Err(e),
        };
        if header.version != 2 {
            return Err(GlbError::UnsupportedVersion(header.version));
        }
        let n = header.length as usize;
        buf.clear();
        // The safe form of growing the buffer before the read: the zero fill
        // makes the grown region well defined, and it is either fully
        // overwritten by a confirmed read or discarded below.
        buf.resize(n, 0u8);
        let got = match read_into(&mut reader, buf) {
            Ok(g) => g,
            Err(e) => {
                buf.clear();
                return Err(GlbError::Io(e));
            },
        };
        if got != n {
            buf.clear();
            return Err(GlbError::LengthMismatch {
                ty: None,
                declared: header.length,
                available: got,
            });
        }
        let data: &'a [u8] = buf.as_slice();
        proof {
            assert(!(split_outcome(data@) is RejectedMagic));
            assert(!(split_outcome(data@) is RejectedVersion));
        }
        match Self::from_v2(data) {
            Ok((json, bin)) => Ok(Glb { header, json, bin }),
            Err(e) => Err(e),
        }
    }
}

} // verus!
