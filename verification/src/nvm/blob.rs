//! The self-describing blob that both regions are stored as.
//!
//! Layout: `magic[4] | region_tag u8 | schema_version u8 | payload_len u16 LE | crc32 u32 LE |
//! payload`, with the CRC computed over region_tag, schema_version, payload_len and payload.

use crate::bytes;
use crate::crc;
use crate::nvm::store::NvmRegion;
use vstd::prelude::*;

verus! {

/// Reasons a stored blob was rejected. All of them are handled by treating the region
/// as absent; the variants exist for logging/tests.
#[derive(Debug, Clone, Copy, PartialEq, Eq, Structural)]
pub enum DecodeError {
    /// Missing magic or header shorter than minimum: not one of our blobs.
    BadMagic,
    /// Blob was written by an incompatible firmware version.
    SchemaVersion,
    /// Blob belongs to the other region (slots swapped by the store).
    RegionMismatch,
    /// Length field disagrees with the buffer or the expected payload size.
    BadLength,
    /// Payload failed its integrity check (torn or corrupted write).
    BadCrc,
}

/// Bytes before the payload.
pub const HEADER_LEN: usize = 12;

/// Version of the identity payload.
pub const IDENTITY_SCHEMA_VERSION: u8 = 1;

/// Version of the session payload.
pub const SESSION_SCHEMA_VERSION: u8 = 1;

/// The first four bytes of every blob: `LWNV`.
pub open spec fn magic() -> Seq<u8> {
    seq![0x4C, 0x57, 0x4E, 0x56]
}

/// The byte that tells the regions apart.
pub open spec fn tag_of(region: NvmRegion) -> u8 {
    match region {
        NvmRegion::Identity => 0,
        NvmRegion::Session => 1,
    }
}

/// The payload version of a region.
pub open spec fn version_of(region: NvmRegion) -> u8 {
    match region {
        NvmRegion::Identity => IDENTITY_SCHEMA_VERSION,
        NvmRegion::Session => SESSION_SCHEMA_VERSION,
    }
}

/// The header fields that the checksum covers.
pub open spec fn fields(region: NvmRegion, payload_len: u16) -> Seq<u8> {
    seq![tag_of(region), version_of(region)] + bytes::u16_le(payload_len)
}

/// The blob that holds `payload` for `region`.
pub open spec fn blob_of(region: NvmRegion, payload: Seq<u8>) -> Seq<u8> {
    let f = fields(region, payload.len() as u16);
    magic() + f + bytes::u32_le(crc::checksum(0, f + payload)) + payload
}

/// The part of a blob that its checksum covers: everything but the magic and the checksum.
pub open spec fn covered(blob: Seq<u8>) -> Seq<u8> {
    blob.subrange(4, 8) + blob.skip(HEADER_LEN as int)
}

/// The payload of `blob` read as one of `region`, or why it is rejected. The first complaint
/// in this order counts.
pub open spec fn payload_of(region: NvmRegion, blob: Seq<u8>) -> Result<Seq<u8>, DecodeError> {
    if blob.len() < HEADER_LEN || blob.take(4) != magic() {
        Err(DecodeError::BadMagic)
    } else if blob[4] != tag_of(region) {
        Err(DecodeError::RegionMismatch)
    } else if blob[5] != version_of(region) {
        Err(DecodeError::SchemaVersion)
    } else if blob.len() != HEADER_LEN + bytes::u16_at(blob, 6) {
        Err(DecodeError::BadLength)
    } else if bytes::u32_at(blob, 8) != crc::checksum(0, covered(blob)) {
        Err(DecodeError::BadCrc)
    } else {
        Ok(blob.skip(HEADER_LEN as int))
    }
}

/// The byte that tells the regions apart.
pub fn region_tag(region: NvmRegion) -> (tag: u8)
    ensures
        tag == tag_of(region),
{
    match region {
        NvmRegion::Identity => 0,
        NvmRegion::Session => 1,
    }
}

/// The payload version that this library writes and reads for a region.
pub fn schema_version(region: NvmRegion) -> (version: u8)
    ensures
        version == version_of(region),
{
    match region {
        NvmRegion::Identity => IDENTITY_SCHEMA_VERSION,
        NvmRegion::Session => SESSION_SCHEMA_VERSION,
    }
}

/// Writes the blob of `payload` to the front of `out` and returns its length. The rest of
/// `out` is left as it is.
pub fn encode_blob(region: NvmRegion, payload: &[u8], out: &mut [u8]) -> (total: usize)
    requires
        payload@.len() <= u16::MAX,
        HEADER_LEN + payload@.len() <= old(out)@.len(),
    ensures
        total == HEADER_LEN + payload@.len(),
        final(out)@ == bytes::overwrite(old(out)@, 0, blob_of(region, payload@)),
{
    let ghost before = out@;
    let total: usize = HEADER_LEN + payload.len();
    let magic_bytes = [0x4Cu8, 0x57, 0x4E, 0x56];
    bytes::put(out, 0, &magic_bytes);
    let len_bytes = bytes::u16_to_le(payload.len() as u16);
    let field_bytes = [region_tag(region), schema_version(region), len_bytes[0], len_bytes[1]];
    bytes::put(out, 4, &field_bytes);
    bytes::put(out, HEADER_LEN, payload);
    let crc = crc::crc32(crc::crc32(0, &field_bytes), payload);
    let crc_bytes = bytes::u32_to_le(crc);
    bytes::put(out, 8, &crc_bytes);
    proof {
        assert(magic_bytes@ =~= magic());
        assert(field_bytes@ =~= fields(region, payload@.len() as u16));
        crc::lemma_checksum_continues(0, field_bytes@, payload@);
        assert(out@ =~= bytes::overwrite(before, 0, blob_of(region, payload@)));
    }
    total
}

/// Checks that `blob` is an intact blob of `region` and returns its payload.
pub fn decode_blob(region: NvmRegion, blob: &[u8]) -> (r: Result<&[u8], DecodeError>)
    ensures
        match r {
            Ok(payload) => payload_of(region, blob@) == Ok::<Seq<u8>, DecodeError>(payload@),
            Err(e) => payload_of(region, blob@) == Err::<Seq<u8>, DecodeError>(e),
        },
{
    if blob.len() < HEADER_LEN {
        return Err(DecodeError::BadMagic);
    }
    if blob[0] != 0x4C || blob[1] != 0x57 || blob[2] != 0x4E || blob[3] != 0x56 {
        proof {
            let head = blob@.take(4);
            assert(head[0] == blob@[0] && head[1] == blob@[1] && head[2] == blob@[2] && head[3]
                == blob@[3]);
        }
        return Err(DecodeError::BadMagic);
    }
    assert(blob@.take(4) =~= magic());
    if blob[4] != region_tag(region) {
        return Err(DecodeError::RegionMismatch);
    }
    if blob[5] != schema_version(region) {
        return Err(DecodeError::SchemaVersion);
    }
    let len: usize = bytes::u16_from_le(blob, 6) as usize;
    if blob.len() != HEADER_LEN + len {
        return Err(DecodeError::BadLength);
    }
    let (_, payload) = blob.split_at(HEADER_LEN);
    let crc = bytes::u32_from_le(blob, 8);
    let field_bytes = &blob[4..8];
    proof {
        crc::lemma_checksum_continues(0, field_bytes@, payload@);
        assert(blob@.skip(HEADER_LEN as int) =~= payload@);
    }
    if crc != crc::crc32(crc::crc32(0, field_bytes), payload) {
        return Err(DecodeError::BadCrc);
    }
    Ok(payload)
}

} // verus!
