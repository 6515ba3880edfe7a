//! Mathematical model of the container format: what any byte sequence
//! decodes to. The executable decoders in [`crate::container`] are proved to
//! agree with [`decode_outcome`] on every input.

use vstd::prelude::*;

verus! {

/// True of the four magic bytes that open every container: ASCII "glTF".
pub open spec fn is_gltf_magic(t: Seq<u8>) -> bool {
    t.len() == 4 && t[0] == 0x67u8 && t[1] == 0x6cu8 && t[2] == 0x54u8 && t[3] == 0x46u8
}

/// True of the tag of the mandatory first chunk: ASCII "JSON".
pub open spec fn is_json_tag(t: Seq<u8>) -> bool {
    t.len() == 4 && t[0] == 0x4au8 && t[1] == 0x53u8 && t[2] == 0x4fu8 && t[3] == 0x4eu8
}

/// True of the tag of the optional second chunk: ASCII "BIN" plus a null byte.
pub open spec fn is_bin_tag(t: Seq<u8>) -> bool {
    t.len() == 4 && t[0] == 0x42u8 && t[1] == 0x49u8 && t[2] == 0x4eu8 && t[3] == 0x00u8
}

/// The four bytes of `s` starting at offset `off`.
pub open spec fn tag_at(s: Seq<u8>, off: int) -> Seq<u8>
    recommends
        0 <= off,
        off + 4 <= s.len(),
{
    seq![s[off], s[off + 1], s[off + 2], s[off + 3]]
}

/// The unsigned 32-bit little-endian value stored in `s` at offset `off`.
pub open spec fn le32(s: Seq<u8>, off: int) -> int
    recommends
        0 <= off,
        off + 4 <= s.len(),
{
    s[off] + s[off + 1] * 0x100 + s[off + 2] * 0x10000 + s[off + 3] * 0x1000000
}

/// The four magic bytes that open every container: ASCII "glTF".
pub open spec fn gltf_magic() -> Seq<u8> {
    seq![0x67u8, 0x6cu8, 0x54u8, 0x46u8]
}

/// The tag of the mandatory first chunk: ASCII "JSON".
pub open spec fn json_tag() -> Seq<u8> {
    seq![0x4au8, 0x53u8, 0x4fu8, 0x4eu8]
}

/// The tag of the optional second chunk: ASCII "BIN" plus a null byte.
pub open spec fn bin_tag() -> Seq<u8> {
    seq![0x42u8, 0x49u8, 0x4eu8, 0x00u8]
}

/// The four little-endian bytes that store the unsigned 32-bit value `x`.
pub open spec fn le_bytes(x: int) -> Seq<u8>
    recommends
        0 <= x < 0x1_0000_0000,
{
    seq![
        (x % 0x100) as u8,
        ((x / 0x100) % 0x100) as u8,
        ((x / 0x10000) % 0x100) as u8,
        ((x / 0x1000000) % 0x100) as u8,
    ]
}

/// A chunk as it sits in a container: length prefix, tag, payload.
pub open spec fn encode_chunk(tag: Seq<u8>, payload: Seq<u8>) -> Seq<u8> {
    le_bytes(payload.len() as int) + tag + payload
}

/// A whole container synthesized from a JSON payload, an optional binary
/// payload, and a declared total length.
pub open spec fn encode_container(json: Seq<u8>, bin: Option<Seq<u8>>, declared: int) -> Seq<u8> {
    gltf_magic() + le_bytes(2) + le_bytes(declared) + encode_chunk(json_tag(), json) + (match bin {
        Some(b) => encode_chunk(bin_tag(), b),
        None => Seq::empty(),
    })
}

/// What decoding a byte sequence yields: the two payloads on success, or the
/// reason the sequence was rejected, with the data the matching error carries.
pub enum Outcome {
    /// The container is well formed: the JSON payload and, if a second chunk
    /// is present, the binary payload.
    Accepted { json: Seq<u8>, bin: Option<Seq<u8>> },
    /// The input ended inside a fixed-size header field.
    Truncated,
    /// The first four bytes are not the magic; carries them.
    RejectedMagic(Seq<u8>),
    /// The version field is not the supported value; carries it.
    RejectedVersion(int),
    /// A declared length exceeds the bytes available; `ty` is the tag of the
    /// chunk being read, or `None` for the container-level length check.
    RejectedLength { ty: Option<Seq<u8>>, declared: int, available: int },
    /// A chunk's tag is not the one its position requires; carries the tag.
    RejectedChunkType(Seq<u8>),
}

/// What splitting the bytes that follow the 12-byte header yields: a JSON
/// chunk first, an optional binary chunk second, trailing bytes ignored.
pub open spec fn split_outcome(s: Seq<u8>) -> Outcome {
    if s.len() < 8 {
        Outcome::Truncated
    } else {
        let jlen = le32(s, 0);
        let jty = tag_at(s, 4);
        if !is_json_tag(jty) {
            Outcome::RejectedChunkType(jty)
        } else if jlen > s.len() - 8 {
            Outcome::RejectedLength { ty: Some(jty), declared: jlen, available: s.len() - 8 }
        } else {
            let json = s.subrange(8, 8 + jlen);
            let rem = s.subrange(8 + jlen, s.len() as int);
            if rem.len() == 0 {
                Outcome::Accepted { json, bin: None }
            } else if rem.len() < 8 {
                Outcome::Truncated
            } else {
                let blen = le32(rem, 0);
                let bty = tag_at(rem, 4);
                if !is_bin_tag(bty) {
                    Outcome::RejectedChunkType(bty)
                } else if blen > rem.len() - 8 {
                    Outcome::RejectedLength {
                        ty: Some(bty),
                        declared: blen,
                        available: rem.len() - 8,
                    }
                } else {
                    Outcome::Accepted { json, bin: Some(rem.subrange(8, 8 + blen)) }
                }
            }
        }
    }
}

/// What decoding a whole container yields. The magic is checked first, then
/// the declared length against the bytes that follow the header, then the
/// version; the entire remainder (not trimmed to the declared length) is then
/// split into chunks.
pub open spec fn decode_outcome(s: Seq<u8>) -> Outcome {
    if s.len() < 4 {
        Outcome::Truncated
    } else if !is_gltf_magic(tag_at(s, 0)) {
        Outcome::RejectedMagic(tag_at(s, 0))
    } else if s.len() < 12 {
        Outcome::Truncated
    } else {
        let version = le32(s, 4);
        let declared = le32(s, 8);
        let rest = s.subrange(12, s.len() as int);
        if declared > rest.len() {
            Outcome::RejectedLength { ty: None, declared, available: rest.len() as int }
        } else if version != 2 {
            Outcome::RejectedVersion(version)
        } else {
            split_outcome(rest)
        }
    }
}

} // verus!
