//! Messages that carry their own CRC-32 checksum: the first four bytes hold, big-endian, the
//! IEEE CRC-32 of the rest.

use crate::wire_msg::{be_u32, u32_of_be};
use vstd::prelude::*;

verus! {

/// What `crc::crc32::checksum_ieee` returns for `data`.
pub uninterp spec fn crc32_ieee(data: Seq<u8>) -> u32;

/// Calls `crc::crc32::checksum_ieee`; its result is named `crc32_ieee`.
#[verifier::external_body]
fn checksum_ieee(data: &[u8]) -> (r: u32)
    ensures
        r == crc32_ieee(data@),
{
    crc::crc32::checksum_ieee(data)
}

/// Whether the first four bytes of `data` hold the checksum of the rest.
pub open spec fn spec_hash_correct(data: Seq<u8>) -> bool {
    u32_of_be(data[0], data[1], data[2], data[3]) == crc32_ieee(data.subrange(4, data.len() as int))
}

/// Whether the first four bytes of `data` hold, big-endian, the CRC-32 of the rest.
pub fn hash_correct(data: &[u8]) -> (r: bool)
    requires
        data@.len() >= 4,
    ensures
        r == spec_hash_correct(data@),
{
    let encoded_hash = ((data[0] as u32) << 24u32) | ((data[1] as u32) << 16u32) | ((data[2] as u32)
        << 8u32) | (data[3] as u32);
    let actual_hash = checksum_ieee(&data[4..data.len()]);
    encoded_hash == actual_hash
}

/// `data` with its first four bytes replaced by the big-endian CRC-32 of the rest.
pub fn with_hash(data: Vec<u8>) -> (r: Vec<u8>)
    requires
        data@.len() >= 4,
    ensures
        r@ == be_u32(crc32_ieee(data@.subrange(4, data@.len() as int))) + data@.subrange(
            4,
            data@.len() as int,
        ),
{
    let hash = checksum_ieee(&data.as_slice()[4..data.len()]);
    let ghost orig = data@;
    let mut data = data;
    data.set(0, (hash >> 24u32) as u8);
    data.set(1, (hash >> 16u32) as u8);
    data.set(2, (hash >> 8u32) as u8);
    data.set(3, hash as u8);
    assert(data@ =~= be_u32(hash) + orig.subrange(4, orig.len() as int));
    data
}

/// Data given its checksum passes the check.
pub proof fn law_with_hash_is_correct(data: Seq<u8>)
    requires
        data.len() >= 4,
    ensures
        spec_hash_correct(
            be_u32(crc32_ieee(data.subrange(4, data.len() as int))) + data.subrange(4, data.len() as int),
        ),
{
    let h = crc32_ieee(data.subrange(4, data.len() as int));
    let r = be_u32(h) + data.subrange(4, data.len() as int);
    assert(r.subrange(4, r.len() as int) =~= data.subrange(4, data.len() as int));
    crate::wire_msg::lemma_be_u32_roundtrip(h);
}

} // verus!
