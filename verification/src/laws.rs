//! Laws of the container format, proved once and for all over the model in
//! [`crate::model`]. The entry points' contracts tie the executable decoders
//! to [`decode_outcome`], so each law here holds of them as well.

use vstd::prelude::*;

use crate::model::{
    bin_tag, decode_outcome, encode_chunk, encode_container, gltf_magic, is_bin_tag,
    is_gltf_magic, is_json_tag, json_tag, le32, le_bytes, split_outcome, tag_at, Outcome,
};
use vstd::arithmetic::div_mod::{
    lemma_div_denominator, lemma_fundamental_div_mod, lemma_mod_bound,
};

verus! {

/// Reading the four little-endian bytes of a 32-bit value gives it back.
pub proof fn lemma_le32_of_le_bytes(x: int)
    requires
        0 <= x < 0x1_0000_0000,
    ensures
        le_bytes(x).len() == 4,
        le32(le_bytes(x), 0) == x,
{
    lemma_fundamental_div_mod(x, 0x100);
    lemma_fundamental_div_mod(x / 0x100, 0x100);
    lemma_fundamental_div_mod(x / 0x10000, 0x100);
    lemma_div_denominator(x, 0x100, 0x100);
    lemma_div_denominator(x, 0x10000, 0x100);
    lemma_mod_bound(x, 0x100);
    lemma_mod_bound(x / 0x100, 0x100);
    lemma_mod_bound(x / 0x10000, 0x100);
    lemma_mod_bound(x / 0x1000000, 0x100);
    assert(0x1000000 * (x / 0x1000000) + (x % 0x1000000) == x) by {
        lemma_fundamental_div_mod(x, 0x1000000);
    }
    lemma_mod_bound(x, 0x1000000);
    assert(x / 0x1000000 < 0x100);
    assert((x / 0x1000000) % 0x100 == x / 0x1000000) by {
        vstd::arithmetic::div_mod::lemma_small_mod((x / 0x1000000) as nat, 0x100);
    }
}

/// Law: a container synthesized from any JSON payload and any optional binary
/// payload, with the declared total length matching the bytes that follow the
/// 12-byte header, decodes successfully to exactly those payloads.
pub proof fn lemma_round_trip(json: Seq<u8>, bin: Option<Seq<u8>>, declared: int)
    requires
        declared == 8 + json.len() + (match bin {
            Some(b) => 8 + b.len() as int,
            None => 0int,
        }),
        declared < 0x1_0000_0000,
    ensures
        decode_outcome(encode_container(json, bin, declared)) == (Outcome::Accepted { json, bin }),
{
    let s = encode_container(json, bin, declared);
    let jc = encode_chunk(json_tag(), json);
    let bp = match bin {
        Some(b) => encode_chunk(bin_tag(), b),
        None => Seq::<u8>::empty(),
    };
    lemma_le32_of_le_bytes(2);
    lemma_le32_of_le_bytes(declared);
    lemma_le32_of_le_bytes(json.len() as int);
    assert(s.len() == 12 + jc.len() + bp.len());
    assert(is_gltf_magic(tag_at(s, 0)));
    assert(le32(s, 4) == le32(le_bytes(2), 0));
    assert(le32(s, 8) == le32(le_bytes(declared), 0));
    let rest = s.subrange(12, s.len() as int);
    assert(rest =~= jc + bp);
    assert(le32(rest, 0) == le32(le_bytes(json.len() as int), 0));
    assert(is_json_tag(tag_at(rest, 4)));
    let json2 = rest.subrange(8, 8 + json.len() as int);
    assert(json2 =~= json);
    let rem = rest.subrange(8 + json.len() as int, rest.len() as int);
    assert(rem =~= bp);
    match bin {
        None => {
            assert(rem.len() == 0);
        },
        Some(b) => {
            lemma_le32_of_le_bytes(b.len() as int);
            assert(rem.len() == 8 + b.len());
            assert(le32(rem, 0) == le32(le_bytes(b.len() as int), 0));
            assert(is_bin_tag(tag_at(rem, 4)));
            let bin2 = rem.subrange(8, 8 + b.len() as int);
            assert(bin2 =~= b);
        },
    }
}

/// Law: any input of at least four bytes that does not open with the magic is
/// rejected as such, with the offending four bytes attached.
pub proof fn lemma_magic_rejection(s: Seq<u8>)
    requires
        s.len() >= 4,
        !is_gltf_magic(tag_at(s, 0)),
    ensures
        decode_outcome(s) == Outcome::RejectedMagic(tag_at(s, 0)),
{
}

/// Law: a container whose declared total length exceeds the bytes that
/// actually follow the header is rejected with both counts attached, before
/// the version is even considered. This is why [`lemma_round_trip`] pins the
/// declared length: a synthesized container declaring more than follows its
/// header never decodes.
pub proof fn lemma_file_length_rejection(s: Seq<u8>)
    requires
        s.len() >= 12,
        is_gltf_magic(tag_at(s, 0)),
        le32(s, 8) > s.len() - 12,
    ensures
        decode_outcome(s) == (Outcome::RejectedLength {
            ty: None,
            declared: le32(s, 8),
            available: s.len() - 12,
        }),
{
}

/// Law: a container whose magic and declared length pass but whose version
/// field is not the supported value is rejected with that version attached.
pub proof fn lemma_version_rejection(s: Seq<u8>)
    requires
        s.len() >= 12,
        is_gltf_magic(tag_at(s, 0)),
        le32(s, 8) <= s.len() - 12,
        le32(s, 4) != 2,
    ensures
        decode_outcome(s) == Outcome::RejectedVersion(le32(s, 4)),
{
}

/// Law: an input cut off inside the fixed 12-byte header is reported as an
/// input failure, never as any other rejection.
pub proof fn lemma_header_truncation(s: Seq<u8>)
    requires
        s.len() < 4 || (is_gltf_magic(tag_at(s, 0)) && s.len() < 12),
    ensures
        decode_outcome(s) == Outcome::Truncated,
{
}

/// Law: an accepted header followed by fewer bytes than one chunk prefix
/// (the input ends inside the first chunk's prefix) is an input failure.
pub proof fn lemma_chunk_truncation(s: Seq<u8>)
    requires
        s.len() >= 12,
        is_gltf_magic(tag_at(s, 0)),
        le32(s, 4) == 2,
        le32(s, 8) <= s.len() - 12,
        s.len() - 12 < 8,
    ensures
        decode_outcome(s) == Outcome::Truncated,
{
}

/// Law: when a well-formed JSON chunk leaves a nonempty remainder shorter
/// than a chunk prefix (the input ends inside the second chunk's prefix),
/// the split is an input failure.
pub proof fn lemma_second_chunk_truncation(rest: Seq<u8>)
    requires
        rest.len() >= 8,
        is_json_tag(tag_at(rest, 4)),
        le32(rest, 0) <= rest.len() - 8,
        0 < rest.len() - 8 - le32(rest, 0) < 8,
    ensures
        split_outcome(rest) == Outcome::Truncated,
{
}

/// Law: when the first chunk's tag is anything but the JSON tag, the
/// container is rejected with that tag attached.
pub proof fn lemma_chunk_type_rejection(s: Seq<u8>)
    requires
        s.len() >= 20,
        is_gltf_magic(tag_at(s, 0)),
        le32(s, 4) == 2,
        le32(s, 8) <= s.len() - 12,
        !is_json_tag(tag_at(s, 16)),
    ensures
        decode_outcome(s) == Outcome::RejectedChunkType(tag_at(s, 16)),
{
    let rest = s.subrange(12, s.len() as int);
    assert(tag_at(rest, 4) =~= tag_at(s, 16));
}

/// Law: when a second chunk is present and its tag is anything but the
/// binary tag, the split is rejected with that tag attached.
pub proof fn lemma_second_chunk_type_rejection(rest: Seq<u8>)
    requires
        rest.len() >= 8,
        is_json_tag(tag_at(rest, 4)),
        le32(rest, 0) <= rest.len() - 8,
        rest.len() - 8 - le32(rest, 0) >= 8,
        !is_bin_tag(tag_at(rest, 12 + le32(rest, 0))),
    ensures
        split_outcome(rest) == Outcome::RejectedChunkType(tag_at(rest, 12 + le32(rest, 0))),
{
    let jlen = le32(rest, 0);
    let rem = rest.subrange(8 + jlen, rest.len() as int);
    assert(tag_at(rem, 4) =~= tag_at(rest, 12 + jlen));
}

/// Law: a first chunk declaring more bytes than actually remain after its
/// prefix is rejected with both the declared and the available count.
pub proof fn lemma_length_overrun(s: Seq<u8>)
    requires
        s.len() >= 20,
        is_gltf_magic(tag_at(s, 0)),
        le32(s, 4) == 2,
        le32(s, 8) <= s.len() - 12,
        is_json_tag(tag_at(s, 16)),
        le32(s, 12) > s.len() - 20,
    ensures
        decode_outcome(s) == (Outcome::RejectedLength {
            ty: Some(tag_at(s, 16)),
            declared: le32(s, 12),
            available: s.len() - 20,
        }),
{
    let rest = s.subrange(12, s.len() as int);
    assert(tag_at(rest, 4) =~= tag_at(s, 16));
    assert(le32(rest, 0) == le32(s, 12));
}

/// Law: a second chunk declaring more bytes than actually remain after its
/// prefix is rejected with both the declared and the available count.
pub proof fn lemma_second_length_overrun(rest: Seq<u8>)
    requires
        rest.len() >= 8,
        is_json_tag(tag_at(rest, 4)),
        le32(rest, 0) <= rest.len() - 8,
        rest.len() - 8 - le32(rest, 0) >= 8,
        is_bin_tag(tag_at(rest, 12 + le32(rest, 0))),
        le32(rest, 8 + le32(rest, 0)) > rest.len() - 16 - le32(rest, 0),
    ensures
        split_outcome(rest) == (Outcome::RejectedLength {
            ty: Some(tag_at(rest, 12 + le32(rest, 0))),
            declared: le32(rest, 8 + le32(rest, 0)),
            available: rest.len() - 16 - le32(rest, 0),
        }),
{
    let jlen = le32(rest, 0);
    let rem = rest.subrange(8 + jlen, rest.len() as int);
    assert(tag_at(rem, 4) =~= tag_at(rest, 12 + jlen));
    assert(le32(rem, 0) == le32(rest, 8 + jlen));
}

/// Law: whatever bytes a successfully decoded container held, its header was
/// well formed — the magic opened it, the version field read 2, the declared
/// length did not exceed the bytes after the header, the first chunk bore the
/// JSON tag, and the JSON payload is exactly as long as that chunk declared.
pub proof fn lemma_accepted_invariants(s: Seq<u8>)
    requires
        decode_outcome(s) is Accepted,
    ensures
        s.len() >= 20,
        is_gltf_magic(tag_at(s, 0)),
        le32(s, 4) == 2,
        le32(s, 8) <= s.len() - 12,
        is_json_tag(tag_at(s, 16)),
        le32(s, 12) <= s.len() - 20,
        (decode_outcome(s) matches Outcome::Accepted { json, .. } ==> json.len() == le32(s, 12)),
{
    let rest = s.subrange(12, s.len() as int);
    assert(tag_at(rest, 4) =~= tag_at(s, 16));
    assert(le32(rest, 0) == le32(s, 12));
}

} // verus!
