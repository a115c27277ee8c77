//! The binary decoder for the fixed-layout container.
//!
//! The container starts with a 4-byte magic tag and a little-endian
//! 32-bit record count; `count` 432-byte record blocks follow. Within
//! a block, byte 0 holds the name length `L` (at most 15), bytes
//! `1..1+L` hold the name text, bytes 16..32 hold four little-endian
//! 32-bit fields (width, height, area, id), and bytes 32..432 hold
//! the 400-byte tile payload, reshaped row-major into a 20x20 grid.

use crate::container::{MapEntry, MapEntryView, MapFile, MapFileView, entry_wf, file_wf};
use crate::gravity::{description_of, determine_description, determine_gravity, gravity_of};
use crate::remap::{remap_index, remap_spec, spec_is_unrecognized};
use vstd::prelude::*;
use vstd::utf8::{decode_utf8, encode_utf8, decode_utf8_encode_utf8, valid_utf8};

verus! {

/// Why a decode failed.
///
/// `TruncatedInput` means fewer bytes were available than the format
/// requires at some decode step; `InvalidEncoding` means the magic
/// tag or a name was not valid text. Both are fatal: no partial
/// container is returned.
#[derive(Clone, Copy, Debug, PartialEq, Eq, Structural)]
pub enum MapError {
    TruncatedInput,
    InvalidEncoding,
}

/// The value of four consecutive bytes read as one little-endian
/// 32-bit unsigned integer.
pub open spec fn le_u32_at(b: Seq<u8>, o: int) -> u32
    recommends
        0 <= o,
        o + 4 <= b.len(),
{
    (b[o] + b[o + 1] * 0x100 + b[o + 2] * 0x10000 + b[o + 3] * 0x1000000) as u32
}

/// The record count declared in the container header.
pub open spec fn spec_count(b: Seq<u8>) -> u32
    recommends
        b.len() >= 8,
{
    le_u32_at(b, 4)
}

/// The 432-byte block of the record at a given index.
pub open spec fn block_at(b: Seq<u8>, i: int) -> Seq<u8>
    recommends
        0 <= i,
        8 + 432 * (i + 1) <= b.len(),
{
    b.subrange(8 + 432 * i, 8 + 432 * i + 432)
}

/// The 432-byte block that starts at a given byte offset.
pub open spec fn block_at_offset(b: Seq<u8>, o: int) -> Seq<u8>
    recommends
        0 <= o,
        o + 432 <= b.len(),
{
    b.subrange(o, o + 432)
}

/// The name bytes of a record block: the region selected by the
/// length byte.
pub open spec fn block_name_bytes(block: Seq<u8>) -> Seq<u8>
    recommends
        block.len() == 432,
        block[0] <= 15,
{
    block.subrange(1, 1 + block[0] as int)
}

/// Why decoding one record block fails, if it does. A length byte
/// over 15 would make the name region read past byte offset 16, so
/// fewer name bytes are available than it asks for; name bytes that
/// are not valid text are an encoding failure.
pub open spec fn block_error(block: Seq<u8>) -> Option<MapError>
    recommends
        block.len() == 432,
{
    if block[0] > 15 {
        Some(MapError::TruncatedInput)
    } else if !valid_utf8(block_name_bytes(block)) {
        Some(MapError::InvalidEncoding)
    } else {
        None
    }
}

/// The record decoded and assembled from one well-formed block: the
/// name region decoded as text, the four little-endian fields, the
/// gravity and description derived from the raw sentinel byte at
/// offset 32 (grid position (0, 0)), and the payload reshaped
/// row-major into a 20x20 grid with every cell remapped.
pub open spec fn entry_of_block(block: Seq<u8>) -> MapEntryView
    recommends
        block.len() == 432,
        block_error(block) is None,
{
    MapEntryView {
        name: decode_utf8(block_name_bytes(block)),
        description: description_of(block[32]),
        width: le_u32_at(block, 16),
        height: le_u32_at(block, 20),
        area: le_u32_at(block, 24),
        gravity: gravity_of(block[32]),
        id: le_u32_at(block, 28),
        data: Seq::new(20, |r: int| Seq::new(20, |c: int| remap_spec(block[32 + 20 * r + c]))),
    }
}

/// The first failure among the record blocks from index `i` on, in
/// decode order: for each block in turn, the input must still hold
/// the whole block, and the block itself must decode.
pub open spec fn records_error(b: Seq<u8>, count: int, i: int) -> Option<MapError>
    decreases count - i,
{
    if i >= count {
        None
    } else if b.len() < 8 + 432 * (i + 1) {
        Some(MapError::TruncatedInput)
    } else if block_error(block_at(b, i)) is Some {
        block_error(block_at(b, i))
    } else {
        records_error(b, count, i + 1)
    }
}

/// The first failure of a decode of the whole container, in decode
/// order: the 4-byte magic tag must be present and valid text, the
/// 4-byte count must be present, and every declared record block
/// must decode. `None` means the decode succeeds.
pub open spec fn decode_error(b: Seq<u8>) -> Option<MapError> {
    if b.len() < 4 {
        Some(MapError::TruncatedInput)
    } else if !valid_utf8(b.subrange(0, 4)) {
        Some(MapError::InvalidEncoding)
    } else if b.len() < 8 {
        Some(MapError::TruncatedInput)
    } else {
        records_error(b, spec_count(b) as int, 0)
    }
}

/// The container a successful decode produces: the decoded magic
/// tag, the declared count, and one assembled record per block.
pub open spec fn decoded(b: Seq<u8>) -> MapFileView
    recommends
        decode_error(b) is None,
{
    MapFileView {
        magic: decode_utf8(b.subrange(0, 4)),
        count: spec_count(b),
        maps: Seq::new(spec_count(b) as nat, |i: int| entry_of_block(block_at(b, i))),
    }
}

/// Relies on String::from_utf8: it returns Ok exactly when the bytes
/// are valid UTF-8, and the returned string then holds their decoded
/// characters.
#[verifier::external_body]
fn bytes_to_string(bytes: Vec<u8>) -> (r: Option<String>)
    ensures
        r is Some <==> valid_utf8(bytes@),
        r matches Some(s) ==> s@ == decode_utf8(bytes@),
{
    String::from_utf8(bytes).ok()
}

/// Read one little-endian 32-bit unsigned integer at a byte offset.
fn read_le_u32(bytes: &[u8], o: usize) -> (r: u32)
    requires
        o + 4 <= bytes@.len(),
    ensures
        r == le_u32_at(bytes@, o as int),
{
    (bytes[o] as u32) + 0x100 * (bytes[o + 1] as u32) + 0x10000 * (bytes[o + 2] as u32) + 0x1000000
        * (bytes[o + 3] as u32)
}

/// Decode one 432-byte record block that starts at `offset`.
fn decode_entry(bytes: &[u8], offset: usize) -> (r: Result<MapEntry, MapError>)
    requires
        offset + 432 <= bytes@.len(),
    ensures
        r is Ok <==> block_error(block_at_offset(bytes@, offset as int)) is None,
        r matches Ok(e) ==> e@ == entry_of_block(block_at_offset(bytes@, offset as int)),
        r matches Err(e) ==> block_error(block_at_offset(bytes@, offset as int)) == Some(e),
{
    let ghost block = block_at_offset(bytes@, offset as int);
    let n = bytes.len();
    let name_len_byte = bytes[offset];
    proof {
        assert(block[0] == bytes@[offset as int]);
    }
    if name_len_byte > 15 {
        return Err(MapError::TruncatedInput);
    }
    let name_len = name_len_byte as usize;
    let mut name_bytes: Vec<u8> = Vec::new();
    let mut j: usize = 0;
    while j < name_len
        invariant
            j <= name_len,
            name_len <= 15,
            offset + 432 <= bytes@.len(),
            bytes@.len() == n,
            name_bytes@ == bytes@.subrange(offset + 1, offset + 1 + j),
        decreases name_len - j,
    {
        name_bytes.push(bytes[offset + 1 + j]);
        proof {
            assert(name_bytes@ =~= bytes@.subrange(offset + 1, offset + 1 + j + 1));
        }
        j += 1;
    }
    proof {
        assert(name_bytes@ =~= block_name_bytes(block));
    }
    let name = match bytes_to_string(name_bytes) {
        Some(s) => s,
        None => {
            return Err(MapError::InvalidEncoding);
        },
    };
    let width = read_le_u32(bytes, offset + 16);
    let height = read_le_u32(bytes, offset + 20);
    let area = read_le_u32(bytes, offset + 24);
    let id = read_le_u32(bytes, offset + 28);
    proof {
        assert(bytes@.subrange(offset + 16, offset + 16 + 4) =~= block.subrange(16, 20));
        assert(width == le_u32_at(block, 16));
        assert(height == le_u32_at(block, 20));
        assert(area == le_u32_at(block, 24));
        assert(id == le_u32_at(block, 28));
    }
    let sentinel = bytes[offset + 32];
    proof {
        assert(sentinel == block[32]);
    }
    let gravity = determine_gravity(sentinel);
    let description = determine_description(sentinel);
    let mut data: Vec<Vec<u8>> = Vec::new();
    let mut r: usize = 0;
    while r < 20
        invariant
            r <= 20,
            offset + 432 <= bytes@.len(),
            bytes@.len() == n,
            block == block_at_offset(bytes@, offset as int),
            data@.len() == r,
            forall|k: int|
                0 <= k < r ==> (#[trigger] data@[k])@ == Seq::new(
                    20,
                    |c: int| remap_spec(block[32 + 20 * k + c]),
                ),
        decreases 20 - r,
    {
        let mut row: Vec<u8> = Vec::new();
        let mut c: usize = 0;
        while c < 20
            invariant
                c <= 20,
                r < 20,
                offset + 432 <= bytes@.len(),
                bytes@.len() == n,
                block == block_at_offset(bytes@, offset as int),
                row@.len() == c,
                forall|k: int| 0 <= k < c ==> row@[k] == remap_spec(block[32 + 20 * r + k]),
            decreases 20 - c,
        {
            row.push(remap_index(bytes[offset + 32 + 20 * r + c]));
            c += 1;
        }
        proof {
            assert(row@ =~= Seq::new(20, |c: int| remap_spec(block[32 + 20 * (r as int) + c])));
        }
        data.push(row);
        r += 1;
    }
    let entry = MapEntry { name, description, width, height, area, gravity, id, data };
    proof {
        assert(entry@.data =~~= entry_of_block(block).data);
        assert(entry@ =~~= entry_of_block(block));
    }
    Ok(entry)
}

/// Decode a whole container from its bytes.
///
/// The decode succeeds exactly when no decode step fails, and then
/// yields the container model `decoded(bytes@)`, which is well
/// formed: it holds exactly `count` records, and every record's grid
/// has exactly 20 rows of exactly 20 columns. On failure the error
/// is exactly the first failure in decode order. Bytes past the
/// `8 + 432 * count` the format requires are ignored.
pub fn decode_map_file(bytes: &[u8]) -> (r: Result<MapFile, MapError>)
    ensures
        r is Ok <==> decode_error(bytes@) is None,
        r matches Ok(m) ==> m@ == decoded(bytes@) && file_wf(m@),
        r matches Err(e) ==> decode_error(bytes@) == Some(e),
{
    if bytes.len() < 4 {
        return Err(MapError::TruncatedInput);
    }
    let mut magic_bytes: Vec<u8> = Vec::new();
    let mut j: usize = 0;
    while j < 4
        invariant
            j <= 4,
            bytes@.len() >= 4,
            magic_bytes@ == bytes@.subrange(0, j as int),
        decreases 4 - j,
    {
        magic_bytes.push(bytes[j]);
        proof {
            assert(magic_bytes@ =~= bytes@.subrange(0, j + 1));
        }
        j += 1;
    }
    let magic = match bytes_to_string(magic_bytes) {
        Some(s) => s,
        None => {
            return Err(MapError::InvalidEncoding);
        },
    };
    if bytes.len() < 8 {
        return Err(MapError::TruncatedInput);
    }
    let count = read_le_u32(bytes, 4);
    let ghost gcount = spec_count(bytes@) as int;
    let mut maps: Vec<MapEntry> = Vec::new();
    let mut offset: usize = 8;
    let mut i: u32 = 0;
    while i < count
        invariant
            i <= count,
            count == spec_count(bytes@),
            offset == 8 + 432 * (i as int),
            offset <= bytes@.len(),
            bytes@.len() >= 8,
            gcount == spec_count(bytes@) as int,
            valid_utf8(bytes@.subrange(0, 4)),
            magic@ == decode_utf8(bytes@.subrange(0, 4)),
            records_error(bytes@, gcount, 0) == records_error(bytes@, gcount, i as int),
            maps@.len() == i,
            forall|k: int|
                0 <= k < i ==> (#[trigger] maps@[k])@ == entry_of_block(block_at(bytes@, k)),
            forall|k: int| 0 <= k < i ==> block_error(#[trigger] block_at(bytes@, k)) is None,
        decreases count - i,
    {
        if bytes.len() - offset < 432 {
            proof {
                assert(records_error(bytes@, gcount, i as int) == Some(MapError::TruncatedInput));
            }
            return Err(MapError::TruncatedInput);
        }
        proof {
            assert(block_at(bytes@, i as int) =~= block_at_offset(bytes@, offset as int));
        }
        let entry = match decode_entry(bytes, offset) {
            Ok(e) => e,
            Err(e) => {
                proof {
                    assert(records_error(bytes@, gcount, i as int) == Some(e));
                }
                return Err(e);
            },
        };
        proof {
            assert(records_error(bytes@, gcount, i as int) == records_error(
                bytes@,
                gcount,
                i as int + 1,
            ));
        }
        maps.push(entry);
        i += 1;
        offset += 432;
    }
    let file = MapFile { magic, count, maps };
    proof {
        assert(file@.maps =~~= decoded(bytes@).maps);
        assert(file@ =~~= decoded(bytes@));
        assert forall|k: int| 0 <= k < file@.maps.len() implies entry_wf(
            #[trigger] file@.maps[k],
        ) by {
            lemma_entry_of_block_wf(block_at(bytes@, k));
        }
    }
    Ok(file)
}

/// When the record blocks from index `i` on all decode, the input
/// holds every one of them whole, and each block is free of errors.
proof fn lemma_records_error_none(b: Seq<u8>, count: int, i: int)
    requires
        0 <= i <= count,
        records_error(b, count, i) is None,
    ensures
        i < count ==> b.len() >= 8 + 432 * count,
        forall|k: int| i <= k < count ==> block_error(#[trigger] block_at(b, k)) is None,
    decreases count - i,
{
    if i < count {
        lemma_records_error_none(b, count, i + 1);
    }
}

/// A successful decode consumes exactly the 8-byte header and
/// `count` 432-byte record blocks — the input must hold at least
/// `8 + 432 * count` bytes — and produces exactly `count` records.
pub proof fn lemma_decode_consumes_exact(b: Seq<u8>)
    requires
        decode_error(b) is None,
    ensures
        b.len() >= 8 + 432 * (spec_count(b) as int),
        decoded(b).maps.len() == spec_count(b) as int,
{
    lemma_records_error_none(b, spec_count(b) as int, 0);
}

/// A successful decode consumes no more than the `8 + 432 * count`
/// bytes the format requires: any input that agrees with a
/// successfully decoded one on that prefix decodes to the same
/// container, whatever follows.
pub proof fn lemma_decode_prefix_determined(b1: Seq<u8>, b2: Seq<u8>)
    requires
        decode_error(b1) is None,
        b2.len() >= 8 + 432 * (spec_count(b1) as int),
        b2.subrange(0, 8 + 432 * (spec_count(b1) as int)) == b1.subrange(
            0,
            8 + 432 * (spec_count(b1) as int),
        ),
    ensures
        decode_error(b2) is None,
        decoded(b2) == decoded(b1),
{
    lemma_decode_consumes_exact(b1);
    let ghost end = 8 + 432 * (spec_count(b1) as int);
    assert forall|k: int| 0 <= k < end implies b2[k] == b1[k] by {
        assert(b1.subrange(0, end)[k] == b1[k]);
        assert(b2.subrange(0, end)[k] == b2[k]);
    }
    assert(b2.subrange(0, 4) =~= b1.subrange(0, 4));
    assert(spec_count(b2) == spec_count(b1));
    let ghost count = spec_count(b1) as int;
    assert forall|k: int| 0 <= k < count implies block_at(b2, k) =~= block_at(b1, k) by {}
    lemma_records_error_agree(b1, b2, count, 0);
    assert(decoded(b2).maps =~~= decoded(b1).maps);
    assert(decoded(b2) =~~= decoded(b1));
}

/// Two inputs whose record blocks agree from index `i` on, and that
/// both hold all `count` blocks, fail or succeed alike over those
/// blocks.
proof fn lemma_records_error_agree(b1: Seq<u8>, b2: Seq<u8>, count: int, i: int)
    requires
        0 <= i <= count,
        b1.len() >= 8 + 432 * count,
        b2.len() >= 8 + 432 * count,
        forall|k: int| i <= k < count ==> block_at(b1, k) == block_at(b2, k),
    ensures
        records_error(b1, count, i) == records_error(b2, count, i),
    decreases count - i,
{
    if i < count {
        lemma_records_error_agree(b1, b2, count, i + 1);
    }
}

/// Gravity and description are derived from the raw, pre-remap
/// sentinel byte alone: two blocks that agree at payload offset 32
/// (grid position (0, 0)) get the same gravity and the same
/// description, whatever their other bytes hold.
pub proof fn lemma_metadata_from_sentinel(b1: Seq<u8>, b2: Seq<u8>)
    requires
        b1.len() == 432,
        b2.len() == 432,
        b1[32] == b2[32],
    ensures
        entry_of_block(b1).gravity == entry_of_block(b2).gravity,
        entry_of_block(b1).description == entry_of_block(b2).description,
{
}

/// A record's name is decoded from the region its length byte
/// selects and from nothing else: two blocks that agree on the
/// length byte and on that region get the same name, whatever stands
/// in the padding up to offset 16 or beyond.
pub proof fn lemma_name_from_name_region(b1: Seq<u8>, b2: Seq<u8>)
    requires
        b1.len() == 432,
        b2.len() == 432,
        b1[0] == b2[0],
        b1[0] <= 15,
        b1.subrange(1, 1 + b1[0] as int) == b2.subrange(1, 1 + b2[0] as int),
    ensures
        entry_of_block(b1).name == entry_of_block(b2).name,
{
}

/// The 400-byte tile payload of a record block.
pub open spec fn block_payload(block: Seq<u8>) -> Seq<u8>
    recommends
        block.len() == 432,
{
    block.subrange(32, 432)
}

/// The payload bytes of the first `n` record blocks, in decode
/// order.
pub open spec fn payloads_upto(b: Seq<u8>, n: int) -> Seq<u8>
    decreases n,
{
    if n <= 0 {
        Seq::empty()
    } else {
        payloads_upto(b, n - 1) + block_payload(block_at(b, n - 1))
    }
}

/// The subsequence of a byte sequence made of its unrecognized tile
/// indices, in order.
pub open spec fn keep_unrecognized(s: Seq<u8>) -> Seq<u8>
    decreases s.len(),
{
    if s.len() == 0 {
        Seq::empty()
    } else if spec_is_unrecognized(s.last()) {
        keep_unrecognized(s.drop_last()).push(s.last())
    } else {
        keep_unrecognized(s.drop_last())
    }
}

/// Collect every raw tile index of the container's payloads that
/// falls outside the known remap ranges, in decode order, so that a
/// caller can surface each as a diagnostic. The remap itself still
/// covers such indices; they alter no control flow.
pub fn unrecognized_indices(bytes: &[u8]) -> (r: Vec<u8>)
    requires
        decode_error(bytes@) is None,
    ensures
        r@ == keep_unrecognized(payloads_upto(bytes@, spec_count(bytes@) as int)),
{
    proof {
        lemma_decode_consumes_exact(bytes@);
    }
    let n = bytes.len();
    let count = read_le_u32(bytes, 4);
    let ghost gcount = spec_count(bytes@) as int;
    let mut out: Vec<u8> = Vec::new();
    let mut offset: usize = 8;
    let mut i: u32 = 0;
    while i < count
        invariant
            i <= count,
            count == spec_count(bytes@),
            gcount == count as int,
            offset == 8 + 432 * (i as int),
            8 + 432 * gcount <= bytes@.len(),
            bytes@.len() == n,
            out@ == keep_unrecognized(payloads_upto(bytes@, i as int)),
        decreases count - i,
    {
        let ghost block = block_at(bytes@, i as int);
        let mut k: usize = 0;
        while k < 400
            invariant
                k <= 400,
                i < count,
                offset == 8 + 432 * (i as int),
                8 + 432 * ((i as int) + 1) <= bytes@.len(),
                bytes@.len() == n,
                block == block_at(bytes@, i as int),
                out@ == keep_unrecognized(
                    payloads_upto(bytes@, i as int) + block_payload(block).subrange(0, k as int),
                ),
            decreases 400 - k,
        {
            let v = bytes[offset + 32 + k];
            proof {
                assert(v == block_payload(block)[k as int]);
            }
            if v >= 62 {
                out.push(v);
            }
            proof {
                let pre = payloads_upto(bytes@, i as int);
                let part = block_payload(block).subrange(0, k as int);
                let next = block_payload(block).subrange(0, k + 1);
                assert((pre + next).drop_last() =~= pre + part);
                assert((pre + next).last() == v);
                assert(out@ =~= keep_unrecognized(pre + next));
            }
            k += 1;
        }
        proof {
            assert(block_payload(block).subrange(0, 400) =~= block_payload(block));
            assert(payloads_upto(bytes@, i as int) + block_payload(block) == payloads_upto(
                bytes@,
                i as int + 1,
            ));
        }
        i += 1;
        offset += 432;
    }
    out
}

/// Every record assembled from a well-formed block is well formed:
/// its grid has the fixed 20-by-20 shape, and its name decodes from
/// at most 15 bytes.
pub proof fn lemma_entry_of_block_wf(block: Seq<u8>)
    requires
        block.len() == 432,
        block_error(block) is None,
    ensures
        entry_wf(entry_of_block(block)),
{
    broadcast use decode_utf8_encode_utf8;

    assert(encode_utf8(decode_utf8(block_name_bytes(block))) == block_name_bytes(block));
}

} // verus!
