//! The container's chunk layer: a chunk is a length-prefixed, type-tagged,
//! checksummed record. This module frames chunks, parses them back, and
//! proves that the two directions agree.

use vstd::prelude::*;

use crate::bytes::{append_slice, lemma_u32_be_round_trip, push_u32_be, u32_be, u32_from_be};

verus! {

/// The checksum the container format demands: the standard reflected CRC-32
/// (working polynomial 0xEDB88320, initial value and output XOR 0xFFFFFFFF,
/// input and output bit-reflected), with check value 0xCBF43926 over the
/// canonical check string and residue 0xDEBB20E3.
pub uninterp spec fn crc32_of(s: Seq<u8>) -> u32;

/// Relies on `crc::Crc::<u32>::checksum` with `crc::CRC_32_ISO_HDLC`, the
/// standard reflected CRC-32: a table-driven computation whose result is a
/// function of the input bytes alone.
#[verifier::external_body]
fn calculate_crc32(data: &[u8]) -> (r: u32)
    ensures
        r == crc32_of(data@),
{
    crc::Crc::<u32>::new(&crc::CRC_32_ISO_HDLC).checksum(data)
}

/// The header chunk's 4-byte type tag.
pub open spec fn ihdr_tag() -> Seq<u8> {
    seq![73u8, 72u8, 68u8, 82u8]
}

/// The data chunk's 4-byte type tag.
pub open spec fn idat_tag() -> Seq<u8> {
    seq![73u8, 68u8, 65u8, 84u8]
}

/// The terminator chunk's 4-byte type tag.
pub open spec fn iend_tag() -> Seq<u8> {
    seq![73u8, 69u8, 78u8, 68u8]
}

/// The byte layout of one chunk: big-endian data length, 4-byte type tag,
/// data, then the checksum of tag and data, big-endian.
pub open spec fn chunk_bytes(chunk_type: Seq<u8>, data: Seq<u8>) -> Seq<u8>
    recommends
        chunk_type.len() == 4,
        data.len() <= u32::MAX,
{
    u32_be(data.len() as u32) + chunk_type + data + u32_be(crc32_of(chunk_type + data))
}

/// The checksum a chunk of this type tag and data field must carry: the
/// CRC-32 over `chunk_type ‖ data`.
pub fn chunk_checksum(chunk_type: &[u8], data: &[u8]) -> (r: u32)
    ensures
        r == crc32_of(chunk_type@ + data@),
{
    let mut crc_input: Vec<u8> = Vec::new();
    append_slice(&mut crc_input, chunk_type);
    append_slice(&mut crc_input, data);
    calculate_crc32(crc_input.as_slice())
}

/// Wraps a data field in the chunk envelope: length, type tag, data,
/// checksum of `chunk_type ‖ data`.
pub fn create_chunk(chunk_type: &[u8], data: &[u8]) -> (r: Vec<u8>)
    requires
        chunk_type@.len() == 4,
        data@.len() <= u32::MAX,
    ensures
        r@ == chunk_bytes(chunk_type@, data@),
{
    let length: u32 = data.len() as u32;
    let crc = chunk_checksum(chunk_type, data);
    let mut out: Vec<u8> = Vec::new();
    push_u32_be(&mut out, length);
    append_slice(&mut out, chunk_type);
    append_slice(&mut out, data);
    push_u32_be(&mut out, crc);
    assert(out@ =~= chunk_bytes(chunk_type@, data@));
    out
}

/// The header chunk's 13-byte data field: width and height big-endian,
/// then the fixed depth/color-mode/compression/filter/interlace tuple.
pub open spec fn ihdr_data_bytes(width: u32, height: u32) -> Seq<u8> {
    u32_be(width) + u32_be(height) + seq![8u8, 2u8, 0u8, 0u8, 0u8]
}

/// Builds the header chunk for the given dimensions.
pub fn create_ihdr_chunk(width: u32, height: u32) -> (r: Vec<u8>)
    ensures
        r@ == chunk_bytes(ihdr_tag(), ihdr_data_bytes(width, height)),
{
    let mut ihdr_data: Vec<u8> = Vec::new();
    push_u32_be(&mut ihdr_data, width);
    push_u32_be(&mut ihdr_data, height);
    ihdr_data.push(8);
    ihdr_data.push(2);
    ihdr_data.push(0);
    ihdr_data.push(0);
    ihdr_data.push(0);
    assert(ihdr_data@ =~= ihdr_data_bytes(width, height));
    let mut tag: Vec<u8> = Vec::new();
    tag.push(73);
    tag.push(72);
    tag.push(68);
    tag.push(82);
    assert(tag@ =~= ihdr_tag());
    create_chunk(tag.as_slice(), ihdr_data.as_slice())
}

/// Builds the terminator chunk: the fixed tag around an empty data field.
pub fn create_iend_chunk() -> (r: Vec<u8>)
    ensures
        r@ == chunk_bytes(iend_tag(), Seq::<u8>::empty()),
{
    let mut tag: Vec<u8> = Vec::new();
    tag.push(73);
    tag.push(69);
    tag.push(78);
    tag.push(68);
    assert(tag@ =~= iend_tag());
    let data: Vec<u8> = Vec::new();
    assert(data@ =~= Seq::<u8>::empty());
    create_chunk(tag.as_slice(), data.as_slice())
}

/// Decides whether `crc` is the checksum the chunk envelope demands for this
/// type tag and data field.
pub fn verify_chunk_checksum(chunk_type: &[u8], data: &[u8], crc: u32) -> (r: bool)
    ensures
        r == (crc == crc32_of(chunk_type@ + data@)),
{
    let expected = chunk_checksum(chunk_type, data);
    crc == expected
}

/// Wraps an arbitrary byte sequence with the data chunk's type tag; the
/// bytes are opaque to the envelope.
pub fn create_data_chunk(inner_bytes: &[u8]) -> (r: Vec<u8>)
    requires
        inner_bytes@.len() <= u32::MAX,
    ensures
        r@ == chunk_bytes(idat_tag(), inner_bytes@),
{
    let mut tag: Vec<u8> = Vec::new();
    tag.push(73);
    tag.push(68);
    tag.push(65);
    tag.push(84);
    assert(tag@ =~= idat_tag());
    create_chunk(tag.as_slice(), inner_bytes)
}

/// The chunk whose serialization starts at position `at` of `s`, as the
/// tuple (length field, type tag, data field, checksum field); `None` where
/// `s` is too short for the lengths it claims.
pub open spec fn parse_chunk_at(s: Seq<u8>, at: int) -> Option<(u32, Seq<u8>, Seq<u8>, u32)> {
    if 0 <= at && at + 12 <= s.len() {
        let len = u32_from_be(s.subrange(at, at + 4)) as int;
        if at + 12 + len <= s.len() {
            Some(
                (
                    u32_from_be(s.subrange(at, at + 4)),
                    s.subrange(at + 4, at + 8),
                    s.subrange(at + 8, at + 8 + len),
                    u32_from_be(s.subrange(at + 8 + len, at + 12 + len)),
                ),
            )
        } else {
            None
        }
    } else {
        None
    }
}

/// Framing a chunk and parsing it back reproduces the original tuple: the
/// length field equals the data field's exact byte length, and type, data
/// and checksum come back unchanged.
pub proof fn lemma_chunk_round_trip(chunk_type: Seq<u8>, data: Seq<u8>)
    requires
        chunk_type.len() == 4,
        data.len() <= u32::MAX,
    ensures
        parse_chunk_at(chunk_bytes(chunk_type, data), 0) == Some(
            (data.len() as u32, chunk_type, data, crc32_of(chunk_type + data)),
        ),
{
    let s = chunk_bytes(chunk_type, data);
    lemma_u32_be_round_trip(data.len() as u32);
    lemma_u32_be_round_trip(crc32_of(chunk_type + data));
    assert(s.subrange(0, 4) =~= u32_be(data.len() as u32));
    assert(s.subrange(4, 8) =~= chunk_type);
    assert(s.subrange(8, 8 + data.len() as int) =~= data);
    assert(s.subrange(8 + data.len() as int, 12 + data.len() as int) =~= u32_be(
        crc32_of(chunk_type + data),
    ));
}

/// Reads the big-endian 32-bit field at position `at` of `s`.
fn read_u32_be(s: &[u8], at: usize) -> (r: u32)
    requires
        at + 4 <= s@.len(),
    ensures
        r == u32_from_be(s@.subrange(at as int, at as int + 4)),
{
    let b0 = s[at];
    let b1 = s[at + 1];
    let b2 = s[at + 2];
    let b3 = s[at + 3];
    proof {
        let sub = s@.subrange(at as int, at as int + 4);
        assert(sub[0] == b0 && sub[1] == b1 && sub[2] == b2 && sub[3] == b3);
    }
    ((b0 as u32) << 24) | ((b1 as u32) << 16) | ((b2 as u32) << 8) | (b3 as u32)
}

/// Copies `s[start..end]` into a fresh vector.
fn copy_range(s: &[u8], start: usize, end: usize) -> (r: Vec<u8>)
    requires
        start <= end <= s@.len(),
    ensures
        r@ == s@.subrange(start as int, end as int),
{
    let mut out: Vec<u8> = Vec::new();
    let mut i: usize = start;
    while i < end
        invariant
            start <= i <= end <= s@.len(),
            out@ == s@.subrange(start as int, i as int),
        decreases end - i,
    {
        out.push(s[i]);
        i += 1;
        assert(out@ =~= s@.subrange(start as int, i as int));
    }
    out
}

/// Parses the chunk that starts at position `at` of `bytes` back into its
/// (length, type, data, checksum) tuple, exactly where the spec-level parse
/// succeeds.
pub fn parse_chunk(bytes: &[u8], at: usize) -> (r: Option<(u32, Vec<u8>, Vec<u8>, u32)>)
    ensures
        match r {
            Some(c) => parse_chunk_at(bytes@, at as int) == Some((c.0, c.1@, c.2@, c.3)),
            None => parse_chunk_at(bytes@, at as int) is None,
        },
{
    let blen = bytes.len();
    if blen < 12 || at > blen - 12 {
        return None;
    }
    let length = read_u32_be(bytes, at);
    let len = length as usize;
    if len > blen - 12 - at {
        return None;
    }
    let chunk_type = copy_range(bytes, at + 4, at + 8);
    let data = copy_range(bytes, at + 8, at + 8 + len);
    let crc = read_u32_be(bytes, at + 8 + len);
    Some((length, chunk_type, data, crc))
}

} // verus!
