//! The decoded container types and the entry point over an in-memory byte
//! slice. Decoding is zero-copy: the returned chunk payloads borrow from the
//! input, and stay valid for as long as the input does.

use vstd::prelude::*;

use crate::error::{eof_error, GlbError};
use crate::model::{decode_outcome, is_gltf_magic, le32, split_outcome, tag_at, Outcome};

verus! {

/// The decoded contents of a container: the header by value, plus zero-copy
/// views of the JSON chunk and of the optional binary chunk.
#[derive(Clone, Debug)]
pub struct Glb<'a> {
    /// The container's fixed-size header.
    pub header: Header,
    /// The JSON chunk's payload, borrowed from the input bytes.
    pub json: &'a [u8],
    /// The optional binary chunk's payload, borrowed from the input bytes.
    pub bin: Option<&'a [u8]>,
}

/// The fixed 12-byte header that opens every container.
#[derive(Copy, Clone, Debug)]
pub struct Header {
    /// Always the ASCII bytes of "glTF"; checked whenever a header is decoded.
    pub magic: [u8; 4],
    /// Format version; stored unchecked here, the entry points accept only 2.
    pub version: u32,
    /// Producer-declared total byte length; stored unchecked here, judged by
    /// the entry points.
    pub length: u32,
}

/// A chunk's length/type prefix; never handed out of the decoder.
#[derive(Copy, Clone, Debug)]
struct ChunkHeader {
    /// Byte count of the chunk's payload, excluding this prefix.
    length: u32,
    /// Four-byte tag identifying the chunk kind.
    ty: [u8; 4],
}

/// View of an optional borrowed byte range as an optional byte sequence.
pub open spec fn opt_bytes_view(b: Option<&[u8]>) -> Option<Seq<u8>> {
    match b {
        Some(s) => Some(s@),
        None => None,
    }
}

/// View of an optional four-byte tag as an optional byte sequence.
pub open spec fn opt_tag_view(t: Option<[u8; 4]>) -> Option<Seq<u8>> {
    match t {
        Some(a) => Some(a@),
        None => None,
    }
}

/// Reads the unsigned 32-bit little-endian value stored at `off`.
pub(crate) fn read_u32_le(data: &[u8], off: usize) -> (x: u32)
    requires
        off + 4 <= data@.len(),
    ensures
        x as int == le32(data@, off as int),
{
    let b0 = data[off] as u32;
    let b1 = data[off + 1] as u32;
    let b2 = data[off + 2] as u32;
    let b3 = data[off + 3] as u32;
    b0 + b1 * 0x100 + b2 * 0x10000 + b3 * 0x1000000
}

/// Copies the four bytes stored at `off` out of `data`.
fn read_tag(data: &[u8], off: usize) -> (t: [u8; 4])
    requires
        off + 4 <= data@.len(),
    ensures
        t@ == tag_at(data@, off as int),
{
    let t = [data[off], data[off + 1], data[off + 2], data[off + 3]];
    proof {
        assert(t@ =~= tag_at(data@, off as int));
    }
    t
}

impl Header {
    /// Decodes the fixed 12-byte header at the front of `data`. Only the
    /// magic is validated here; version and length are the caller's to judge,
    /// so that version policy is not baked into low-level parsing.
    fn decode_prefix(data: &[u8]) -> (r: Result<Header, GlbError>)
        ensures
            data@.len() >= 12 && is_gltf_magic(tag_at(data@, 0)) ==> (r matches Ok(h)
                && h.magic@ == tag_at(data@, 0) && h.version as int == le32(data@, 4)
                && h.length as int == le32(data@, 8)),
            data@.len() >= 4 && !is_gltf_magic(tag_at(data@, 0)) ==> (r matches Err(e)
                && e matches GlbError::BadMagic(m) && m@ == tag_at(data@, 0)),
            data@.len() < 4 || (is_gltf_magic(tag_at(data@, 0)) && data@.len() < 12) ==> (r matches
                Err(e) && e is Io),
    {
        if data.len() < 4 {
            return Err(GlbError::Io(eof_error()));
        }
        let magic = read_tag(data, 0);
        if !(magic[0] == 0x67 && magic[1] == 0x6c && magic[2] == 0x54 && magic[3] == 0x46) {
            return Err(GlbError::BadMagic(magic));
        }
        if data.len() < 12 {
            return Err(GlbError::Io(eof_error()));
        }
        let version = read_u32_le(data, 4);
        let length = read_u32_le(data, 8);
        Ok(Header { magic, version, length })
    }
}

impl ChunkHeader {
    /// Decodes a chunk's 8-byte length/type prefix at the front of `data`.
    /// The tag is not validated here: which tags are permitted depends on the
    /// chunk's position, which only the splitter knows.
    fn decode_prefix(data: &[u8]) -> (r: Result<ChunkHeader, GlbError>)
        ensures
            data@.len() >= 8 ==> (r matches Ok(c) && c.length as int == le32(data@, 0)
                && c.ty@ == tag_at(data@, 4)),
            data@.len() < 8 ==> (r matches Err(e) && e is Io),
    {
        if data.len() < 8 {
            return Err(GlbError::Io(eof_error()));
        }
        let length = read_u32_le(data, 0);
        let ty = read_tag(data, 4);
        Ok(ChunkHeader { length, ty })
    }
}

impl<'a> Glb<'a> {
    /// Splits the bytes that follow a validated header into the mandatory
    /// JSON chunk and the optional binary chunk, as [`split_outcome`] says.
    /// Trailing bytes after the binary chunk are deliberately ignored.
    pub(crate) fn from_v2(data: &'a [u8]) -> (r: Result<(&'a [u8], Option<&'a [u8]>), GlbError>)
        ensures
            (split_outcome(data@) matches Outcome::Accepted { json, bin } ==> (r matches Ok(p)
                && p.0@ == json && opt_bytes_view(p.1) == bin)),
            split_outcome(data@) is Truncated ==> (r matches Err(e) && e is Io),
            (split_outcome(data@) matches Outcome::RejectedChunkType(t) ==> (r matches Err(e)
                && e matches GlbError::UnexpectedChunkType(a) && a@ == t)),
            (split_outcome(data@) matches Outcome::RejectedLength { ty, declared, available }
                ==> (r matches Err(e) && e matches GlbError::LengthMismatch {
                    ty: t2,
                    declared: d2,
                    available: a2,
                } && opt_tag_view(t2) == ty && d2 as int == declared && a2 as int == available)),
    {
        let jh = match ChunkHeader::decode_prefix(data) {
            Ok(h) => h,
            Err(e) => return Err(e),
        };
        if !(jh.ty[0] == 0x4a && jh.ty[1] == 0x53 && jh.ty[2] == 0x4f && jh.ty[3] == 0x4e) {
            return Err(GlbError::UnexpectedChunkType(jh.ty));
        }
        let (_, rest) = data.split_at(8);
        if jh.length as usize > rest.len() {
            return Err(GlbError::LengthMismatch {
                ty: Some(jh.ty),
                declared: jh.length,
                available: rest.len(),
            });
        }
        let (json, after_json) = rest.split_at(jh.length as usize);
        proof {
            assert(json@ =~= data@.subrange(8, 8 + le32(data@, 0)));
            assert(after_json@ =~= data@.subrange(8 + le32(data@, 0), data@.len() as int));
        }
        if after_json.len() == 0 {
            return Ok((json, None));
        }
        let bh = match ChunkHeader::decode_prefix(after_json) {
            Ok(h) => h,
            Err(e) => return Err(e),
        };
        if !(bh.ty[0] == 0x42 && bh.ty[1] == 0x49 && bh.ty[2] == 0x4e && bh.ty[3] == 0x00) {
            return Err(GlbError::UnexpectedChunkType(bh.ty));
        }
        let (_, rest2) = after_json.split_at(8);
        if bh.length as usize > rest2.len() {
            return Err(GlbError::LengthMismatch {
                ty: Some(bh.ty),
                declared: bh.length,
                available: rest2.len(),
            });
        }
        let (bin, _) = rest2.split_at(bh.length as usize);
        proof {
            assert(bin@ =~= after_json@.subrange(8, 8 + le32(after_json@, 0)));
        }
        Ok((json, Some(bin)))
    }

    /// Splits a fully loaded container into its header, JSON chunk, and
    /// optional binary chunk, exactly as [`decode_outcome`] says of the input
    /// bytes. Both chunk views borrow from `data` and no byte is copied.
    pub fn from_slice(data: &'a [u8]) -> (r: Result<Glb<'a>, GlbError>)
        ensures
            (decode_outcome(data@) matches Outcome::Accepted { json, bin } ==> (r matches Ok(g)
                && g.header.magic@ == tag_at(data@, 0) && g.header.version == 2
                && g.header.length as int == le32(data@, 8) && g.json@ == json
                && opt_bytes_view(g.bin) == bin)),
            decode_outcome(data@) is Truncated ==> (r matches Err(e) && e is Io),
            (decode_outcome(data@) matches Outcome::RejectedMagic(m) ==> (r matches Err(e)
                && e matches GlbError::BadMagic(a) && a@ == m)),
            (decode_outcome(data@) matches Outcome::RejectedVersion(v) ==> (r matches Err(e)
                && e matches GlbError::UnsupportedVersion(a) && a as int == v)),
            (decode_outcome(data@) matches Outcome::RejectedLength { ty, declared, available }
                ==> (r matches Err(e) && e matches GlbError::LengthMismatch {
                    ty: t2,
                    declared: d2,
                    available: a2,
                } && opt_tag_view(t2) == ty && d2 as int == declared && a2 as int == available)),
            (decode_outcome(data@) matches Outcome::RejectedChunkType(t) ==> (r matches Err(e)
                && e matches GlbError::UnexpectedChunkType(a) && a@ == t)),
    {
        let header = match Header::decode_prefix(data) {
            Ok(h) => h,
            Err(e) => return Err(e),
        };
        assert(data@.len() >= 12);
        let (_, rest) = data.split_at(12);
        if header.length as usize > rest.len() {
            return Err(GlbError::LengthMismatch {
                ty: None,
                declared: header.length,
                available: rest.len(),
            });
        }
        if header.version != 2 {
            return Err(GlbError::UnsupportedVersion(header.version));
        }
        proof {
            assert(rest@ =~= data@.subrange(12, data@.len() as int));
        }
        match Self::from_v2(rest) {
            Ok((json, bin)) => Ok(Glb { header, json, bin }),
            Err(e) => Err(e),
        }
    }
}

} // verus!
