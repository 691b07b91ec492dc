//! What holds of blobs as a whole: what reading gives back of a write, and which damage is
//! never taken for data.

use crate::bytes;
use crate::crc;
use crate::nvm::blob::{self, DecodeError, HEADER_LEN};
use crate::nvm::identity::{PersistentIdentity, IDENTITY_PAYLOAD_LEN, JOIN_NONCE_NONE};
use crate::nvm::session::{PersistentSession, ABSENT, SESSION_PAYLOAD_LEN};
use crate::nvm::store::{NvmRegion, MAX_BLOB_LEN};
use crate::types;
use vstd::prelude::*;

verus! {

/// The parts of a blob, by position.
proof fn lemma_blob_layout(region: NvmRegion, payload: Seq<u8>)
    requires
        payload.len() <= u16::MAX,
    ensures
        ({
            let b = blob::blob_of(region, payload);
            let f = blob::fields(region, payload.len() as u16);
            &&& b.len() == HEADER_LEN + payload.len()
            &&& b.take(4) == blob::magic()
            &&& b.subrange(4, 8) == f
            &&& b[4] == blob::tag_of(region)
            &&& b[5] == blob::version_of(region)
            &&& bytes::u16_at(b, 6) == payload.len()
            &&& bytes::u32_at(b, 8) == crc::checksum(0, f + payload)
            &&& b.skip(HEADER_LEN as int) == payload
            &&& blob::covered(b) == f + payload
        }),
{
    let b = blob::blob_of(region, payload);
    let f = blob::fields(region, payload.len() as u16);
    let sum = crc::checksum(0, f + payload);
    assert(b.take(4) =~= blob::magic());
    assert(b.subrange(4, 8) =~= f);
    assert(b.subrange(6, 8) =~= bytes::u16_le(payload.len() as u16));
    bytes::lemma_u16_reads_back(payload.len() as u16, b, 6);
    assert(b.subrange(8, 12) =~= bytes::u32_le(sum));
    bytes::lemma_u32_reads_back(sum, b, 8);
    assert(b.skip(HEADER_LEN as int) =~= payload);
    assert(b[4] == b.subrange(4, 8)[0]);
    assert(b[5] == b.subrange(4, 8)[1]);
}

/// Decoding a blob gives back the payload it was made from.
pub proof fn lemma_blob_reads_back(region: NvmRegion, payload: Seq<u8>)
    requires
        payload.len() <= u16::MAX,
    ensures
        blob::payload_of(region, blob::blob_of(region, payload)) == Ok::<Seq<u8>, DecodeError>(
            payload,
        ),
{
    lemma_blob_layout(region, payload);
}

/// Every accepted blob is the encoding of its payload: there is one blob per region and
/// payload.
pub proof fn lemma_blob_canonical(region: NvmRegion, b: Seq<u8>)
    requires
        blob::payload_of(region, b) is Ok,
    ensures
        b == blob::blob_of(region, blob::payload_of(region, b)->Ok_0),
{
    let payload = b.skip(HEADER_LEN as int);
    let f = blob::fields(region, payload.len() as u16);
    assert(bytes::u16_at(b, 6) == payload.len());
    bytes::lemma_u16_writes_back(b, 6);
    bytes::lemma_u32_writes_back(b, 8);
    assert(b.subrange(4, 8) =~= f) by {
        let w = b.subrange(6, 8);
        assert(w[0] == b[6] && w[1] == b[7]);
    }
    assert(b =~= b.take(4) + b.subrange(4, 8) + b.subrange(8, 12) + payload);
}

/// A blob of one region is refused as a blob of the other.
pub proof fn lemma_region_told_apart(region: NvmRegion, other: NvmRegion, payload: Seq<u8>)
    requires
        payload.len() <= u16::MAX,
        region != other,
    ensures
        blob::payload_of(other, blob::blob_of(region, payload)) == Err::<Seq<u8>, DecodeError>(
            DecodeError::RegionMismatch,
        ),
{
    lemma_blob_layout(region, payload);
}

/// A blob whose region tag was changed to the other region's is refused there too: the
/// checksum covers the tag.
pub proof fn lemma_relabeled_blob_refused(region: NvmRegion, other: NvmRegion, payload: Seq<u8>)
    requires
        payload.len() <= u16::MAX,
        region != other,
    ensures
        blob::payload_of(
            other,
            blob::blob_of(region, payload).update(4, blob::tag_of(other)),
        ) == Err::<Seq<u8>, DecodeError>(DecodeError::BadCrc),
{
    lemma_blob_layout(region, payload);
    let good = blob::blob_of(region, payload);
    let bad = good.update(4, blob::tag_of(other));
    lemma_same_outside(good, bad, 4, 1);
    let a = blob::covered(good);
    let b = blob::covered(bad);
    assert(a[0] != b[0]);
    crc::lemma_burst_detected(0, a, b, 0, 4);
}

/// A blob cut short is refused: below the header as no blob, else for its length.
pub proof fn lemma_truncated_blob_refused(region: NvmRegion, payload: Seq<u8>, len: int)
    requires
        payload.len() <= u16::MAX,
        0 <= len < HEADER_LEN + payload.len(),
    ensures
        blob::payload_of(region, blob::blob_of(region, payload).take(len)) == Err::<
            Seq<u8>,
            DecodeError,
        >(
            if len < HEADER_LEN {
                DecodeError::BadMagic
            } else {
                DecodeError::BadLength
            },
        ),
{
    lemma_blob_layout(region, payload);
    let b = blob::blob_of(region, payload);
    let cut = b.take(len);
    if len >= HEADER_LEN {
        assert(cut.take(4) =~= b.take(4));
        assert(cut[4] == b[4] && cut[5] == b[5] && cut[6] == b[6] && cut[7] == b[7]);
    }
}

/// Parts of two blobs outside the place where they differ are the same.
proof fn lemma_same_outside(good: Seq<u8>, bad: Seq<u8>, at: int, len: int)
    requires
        HEADER_LEN <= good.len() == bad.len(),
        0 <= at,
        0 <= len,
        at + len <= good.len(),
        forall|i: int| 0 <= i < good.len() && !(at <= i < at + len) ==> good[i] == bad[i],
    ensures
        4 <= at ==> bad.take(4) == good.take(4),
        at + len <= 4 || 8 <= at ==> bad.subrange(4, 8) == good.subrange(4, 8),
        at + len <= 8 || 12 <= at ==> bad.subrange(8, 12) == good.subrange(8, 12)
            && bytes::u32_at(bad, 8) == bytes::u32_at(good, 8),
        at + len <= 12 ==> bad.skip(HEADER_LEN as int) == good.skip(HEADER_LEN as int),
{
    if 4 <= at {
        assert(bad.take(4) =~= good.take(4));
    }
    if at + len <= 4 || 8 <= at {
        assert(bad.subrange(4, 8) =~= good.subrange(4, 8));
    }
    if at + len <= 8 || 12 <= at {
        assert(bad.subrange(8, 12) =~= good.subrange(8, 12));
    }
    if at + len <= 12 {
        assert(bad.skip(HEADER_LEN as int) =~= good.skip(HEADER_LEN as int));
    }
}

/// Damage to the payload of an intact blob is always detected if it stays within four
/// consecutive bytes.
pub proof fn lemma_payload_damage_detected(
    region: NvmRegion,
    good: Seq<u8>,
    bad: Seq<u8>,
    at: int,
    len: int,
)
    requires
        blob::payload_of(region, good) is Ok,
        bad.len() == good.len(),
        bad != good,
        HEADER_LEN <= at,
        0 <= len <= 4,
        at + len <= good.len(),
        forall|i: int| 0 <= i < good.len() && !(at <= i < at + len) ==> good[i] == bad[i],
    ensures
        blob::payload_of(region, bad) == Err::<Seq<u8>, DecodeError>(DecodeError::BadCrc),
{
    lemma_same_outside(good, bad, at, len);
    let a = blob::covered(good);
    let b = blob::covered(bad);
    assert(a != b) by {
        if a == b {
            assert forall|i: int| 0 <= i < good.len() implies good[i] == bad[i] by {
                if HEADER_LEN <= i {
                    assert(good[i] == a[i - 8]);
                    assert(bad[i] == b[i - 8]);
                }
            }
            assert(good =~= bad);
        }
    }
    assert forall|i: int| 0 <= i < a.len() && !(at - 8 <= i < at - 8 + len) implies a[i]
        == b[i] by {
        if i < 4 {
            assert(a[i] == good.subrange(4, 8)[i]);
            assert(b[i] == bad.subrange(4, 8)[i]);
        } else {
            assert(a[i] == good[i + 8]);
            assert(b[i] == bad[i + 8]);
        }
    }
    crc::lemma_burst_detected(0, a, b, at - 8, len);
    let g = good.subrange(4, 8);
    let h = bad.subrange(4, 8);
    assert(g[0] == h[0] && g[1] == h[1] && g[2] == h[2] && g[3] == h[3]);
}

/// Damage confined to the header of an intact blob is always detected, unless it reaches both
/// the fields and the checksum over them.
pub proof fn lemma_header_damage_detected(region: NvmRegion, good: Seq<u8>, bad: Seq<u8>)
    requires
        blob::payload_of(region, good) is Ok,
        bad.len() == good.len(),
        bad != good,
        bad.skip(HEADER_LEN as int) == good.skip(HEADER_LEN as int),
        bad.subrange(4, 8) == good.subrange(4, 8) || bad.subrange(8, 12) == good.subrange(8, 12),
    ensures
        blob::payload_of(region, bad) is Err,
{
    if blob::payload_of(region, bad) is Ok {
        let a = blob::covered(good);
        let b = blob::covered(bad);
        assert(bad.take(4) == good.take(4));
        if bad.subrange(4, 8) == good.subrange(4, 8) {
            assert(a == b);
            bytes::lemma_u32_writes_back(good, 8);
            bytes::lemma_u32_writes_back(bad, 8);
            assert(bad.subrange(8, 12) == good.subrange(8, 12));
        } else {
            let g = good.subrange(8, 12);
            let h = bad.subrange(8, 12);
            assert(g[0] == good[8] && g[1] == good[9] && g[2] == good[10] && g[3] == good[11]);
            assert(h[0] == bad[8] && h[1] == bad[9] && h[2] == bad[10] && h[3] == bad[11]);
            assert(a.take(4) =~= good.subrange(4, 8));
            assert(b.take(4) =~= bad.subrange(4, 8));
            crc::lemma_burst_detected(0, a, b, 0, 4);
        }
        assert(good =~= good.take(4) + good.subrange(4, 8) + good.subrange(8, 12) + good.skip(
            HEADER_LEN as int,
        ));
        assert(bad =~= bad.take(4) + bad.subrange(4, 8) + bad.subrange(8, 12) + bad.skip(
            HEADER_LEN as int,
        ));
    }
}

/// An identity survives the trip through its blob. The one that cannot, a nonce equal to the
/// sentinel, needs four bytes where the air has three.
pub proof fn lemma_identity_reads_back(id: PersistentIdentity)
    requires
        id.last_join_nonce != Some(JOIN_NONCE_NONE),
    ensures
        PersistentIdentity::of_blob(id.blob()) == Ok::<PersistentIdentity, DecodeError>(id),
{
    let p = id.payload();
    lemma_blob_reads_back(NvmRegion::Identity, p);
    lemma_identity_payload_reads_back(id);
}

/// An identity survives the trip through its payload.
proof fn lemma_identity_payload_reads_back(id: PersistentIdentity)
    requires
        id.last_join_nonce != Some(JOIN_NONCE_NONE),
    ensures
        id.payload().len() == IDENTITY_PAYLOAD_LEN,
        PersistentIdentity::of_payload(id.payload()) == id,
{
    let p = id.payload();
    let nonce = match id.last_join_nonce {
        Some(n) => n,
        None => JOIN_NONCE_NONE,
    };
    assert(bytes::u16_at(p, 0) == id.dev_nonce) by {
        assert(p.subrange(0, 2) =~= bytes::u16_le(id.dev_nonce));
        bytes::lemma_u16_reads_back(id.dev_nonce, p, 0);
    }
    assert(bytes::u32_at(p, 2) == nonce) by {
        assert(p.subrange(2, 6) =~= bytes::u32_le(nonce));
        bytes::lemma_u32_reads_back(nonce, p, 2);
    }
    assert(bytes::u32_at(p, 6) == id.join_epoch) by {
        assert(p.subrange(6, 10) =~= bytes::u32_le(id.join_epoch));
        bytes::lemma_u32_reads_back(id.join_epoch, p, 6);
    }
}

/// Encoding a decoded identity gives back the blob: no two blobs hold the same identity.
pub proof fn lemma_identity_blob_canonical(b: Seq<u8>)
    requires
        PersistentIdentity::of_blob(b) is Ok,
    ensures
        PersistentIdentity::of_blob(b)->Ok_0.blob() == b,
{
    let p = blob::payload_of(NvmRegion::Identity, b)->Ok_0;
    let id = PersistentIdentity::of_payload(p);
    bytes::lemma_u16_writes_back(p, 0);
    bytes::lemma_u32_writes_back(p, 2);
    bytes::lemma_u32_writes_back(p, 6);
    assert(p =~= p.subrange(0, 2) + p.subrange(2, 6) + p.subrange(6, 10));
    assert(id.payload() =~= p);
    lemma_blob_canonical(NvmRegion::Identity, b);
}

/// Whether a session uses none of the values that stand for an absent one.
pub open spec fn free_of_sentinels(s: PersistentSession) -> bool {
    s.rx2_frequency != Some(0u32) && s.tx_power != Some(ABSENT)
}

/// A session survives the trip through its blob, if it does not use a sentinel as a value.
pub proof fn lemma_session_reads_back(
    s: PersistentSession,
    r: Result<PersistentSession, DecodeError>,
)
    requires
        free_of_sentinels(s),
        PersistentSession::decodes_to(s.blob(), r),
    ensures
        r == Ok::<PersistentSession, DecodeError>(s),
{
    let p = s.payload();
    assert(p.len() == SESSION_PAYLOAD_LEN);
    lemma_blob_reads_back(NvmRegion::Session, p);
    let frequency = match s.rx2_frequency {
        Some(f) => f,
        None => 0,
    };
    assert(p.subrange(0, 16) =~= s.nwkskey.0@);
    assert(p.subrange(16, 32) =~= s.appskey.0@);
    assert(p.subrange(32, 36) =~= s.devaddr.0@);
    assert(p.subrange(36, 40) =~= bytes::u32_le(s.fcnt_up_checkpoint));
    assert(p.subrange(40, 44) =~= bytes::u32_le(s.fcnt_down));
    assert(p.subrange(44, 48) =~= bytes::u32_le(s.join_epoch));
    assert(p.subrange(49, 53) =~= bytes::u32_le(s.rx1_delay));
    assert(p.subrange(55, 59) =~= bytes::u32_le(frequency));
    bytes::lemma_u32_reads_back(s.fcnt_up_checkpoint, p, 36);
    bytes::lemma_u32_reads_back(s.fcnt_down, p, 40);
    bytes::lemma_u32_reads_back(s.join_epoch, p, 44);
    bytes::lemma_u32_reads_back(s.rx1_delay, p, 49);
    bytes::lemma_u32_reads_back(frequency, p, 55);
    let t = r->Ok_0;
    assert(t.nwkskey.0 =~= s.nwkskey.0);
    assert(t.appskey.0 =~= s.appskey.0);
    assert(t.devaddr.0 =~= s.devaddr.0);
    assert(t.nwkskey == s.nwkskey);
    assert(t == s);
}

/// An identity blob is never decoded as a session, nor a session blob as an identity.
pub proof fn lemma_swapped_slots_refused(
    id: PersistentIdentity,
    s: PersistentSession,
    r: Result<PersistentSession, DecodeError>,
)
    requires
        PersistentSession::decodes_to(id.blob(), r),
    ensures
        r == Err::<PersistentSession, DecodeError>(DecodeError::RegionMismatch),
        PersistentIdentity::of_blob(s.blob()) == Err::<PersistentIdentity, DecodeError>(
            DecodeError::RegionMismatch,
        ),
{
    lemma_region_told_apart(NvmRegion::Identity, NvmRegion::Session, id.payload());
    lemma_region_told_apart(NvmRegion::Session, NvmRegion::Identity, s.payload());
}

/// No blob is longer than a store has to expect.
pub proof fn lemma_blobs_fit(id: PersistentIdentity, s: PersistentSession)
    ensures
        id.blob().len() <= MAX_BLOB_LEN,
        s.blob().len() <= MAX_BLOB_LEN,
{
}

/// Where the parts of a blob stand, byte by byte: `LWNV`, region, version, length, checksum of
/// all but these first four bytes and itself, payload.
pub proof fn lemma_blob_format(region: NvmRegion, payload: Seq<u8>)
    requires
        payload.len() <= 65535,
    ensures
        ({
            let b = blob::blob_of(region, payload);
            &&& b.len() == 12 + payload.len()
            &&& b[0] == 0x4C && b[1] == 0x57 && b[2] == 0x4E && b[3] == 0x56
            &&& b[4] == (if region is Identity { 0u8 } else { 1u8 })
            &&& b[5] == 1
            &&& b[6] + 256 * b[7] == payload.len()
            &&& b[8] + 256 * b[9] + 65536 * b[10] + 16777216 * b[11] == crc::checksum(
                0,
                b.subrange(4, 8) + payload,
            )
            &&& b.skip(12) == payload
        }),
{
    lemma_blob_layout(region, payload);
    let b = blob::blob_of(region, payload);
    let head = b.take(4);
    assert(head[0] == b[0] && head[1] == b[1] && head[2] == b[2] && head[3] == b[3]);
    bytes::lemma_u16_at_weighs(b, 6);
    bytes::lemma_u32_at_weighs(b, 8);
}

/// Whether the first four bytes are `LWNV`, and there are enough for a header.
pub open spec fn starts_as_blob(b: Seq<u8>) -> bool {
    b.len() >= 12 && b[0] == 0x4C && b[1] == 0x57 && b[2] == 0x4E && b[3] == 0x56
}

/// A blob is accepted exactly if it is the encoding of a payload for that region, and then
/// that payload is what it holds.
pub proof fn lemma_accepted_exactly_encodings(region: NvmRegion, b: Seq<u8>, payload: Seq<u8>)
    ensures
        blob::payload_of(region, b) == Ok::<Seq<u8>, DecodeError>(payload) <==> payload.len()
            <= 65535 && b == blob::blob_of(region, payload),
{
    if payload.len() <= 65535 && b == blob::blob_of(region, payload) {
        lemma_blob_reads_back(region, payload);
    }
    if blob::payload_of(region, b) == Ok::<Seq<u8>, DecodeError>(payload) {
        lemma_blob_canonical(region, b);
    }
}

/// Which complaint a refused blob meets: no blob at all, the other region, another version, a
/// length that is not the one in the header, a checksum that is not the one in the header. Of
/// several the first counts.
pub proof fn lemma_refusals_in_order(region: NvmRegion, b: Seq<u8>)
    ensures
        ({
            let verdict = blob::payload_of(region, b);
            let ours = b[4] == (if region is Identity { 0u8 } else { 1u8 });
            let whole = b.len() == 12 + b[6] + 256 * b[7];
            let sound = b[8] + 256 * b[9] + 65536 * b[10] + 16777216 * b[11] == crc::checksum(
                0,
                b.subrange(4, 8) + b.skip(12),
            );
            &&& verdict == Err::<Seq<u8>, DecodeError>(DecodeError::BadMagic)
                <==> !starts_as_blob(b)
            &&& verdict == Err::<Seq<u8>, DecodeError>(DecodeError::RegionMismatch)
                <==> starts_as_blob(b) && !ours
            &&& verdict == Err::<Seq<u8>, DecodeError>(DecodeError::SchemaVersion)
                <==> starts_as_blob(b) && ours && b[5] != 1
            &&& verdict == Err::<Seq<u8>, DecodeError>(DecodeError::BadLength)
                <==> starts_as_blob(b) && ours && b[5] == 1 && !whole
            &&& verdict == Err::<Seq<u8>, DecodeError>(DecodeError::BadCrc) <==> starts_as_blob(b)
                && ours && b[5] == 1 && whole && !sound
            &&& verdict is Ok <==> starts_as_blob(b) && ours && b[5] == 1 && whole && sound
            &&& verdict matches Ok(p) ==> p == b.skip(12)
        }),
{
    bytes::lemma_u16_at_weighs(b, 6);
    bytes::lemma_u32_at_weighs(b, 8);
    if b.len() >= 12 {
        let head = b.take(4);
        assert(head[0] == b[0] && head[1] == b[1] && head[2] == b[2] && head[3] == b[3]);
        if starts_as_blob(b) {
            assert(head =~= blob::magic());
        }
    }
}

/// Where the fields of an identity stand in its blob. An identity without a nonce has all
/// ones there.
pub proof fn lemma_identity_format(id: PersistentIdentity)
    ensures
        ({
            let b = id.blob();
            &&& b.len() == 22
            &&& b == blob::blob_of(NvmRegion::Identity, b.skip(12))
            &&& b[12] + 256 * b[13] == id.dev_nonce
            &&& b[14] + 256 * b[15] + 65536 * b[16] + 16777216 * b[17] == (
            match id.last_join_nonce {
                Some(n) => n as int,
                None => 0xFFFF_FFFF,
            })
            &&& b[18] + 256 * b[19] + 65536 * b[20] + 16777216 * b[21] == id.join_epoch
        }),
{
    let p = id.payload();
    let b = id.blob();
    lemma_blob_layout(NvmRegion::Identity, p);
    let nonce = match id.last_join_nonce {
        Some(n) => n,
        None => JOIN_NONCE_NONE,
    };
    bytes::lemma_u16_bytes_weigh(id.dev_nonce);
    bytes::lemma_u32_bytes_weigh(nonce);
    bytes::lemma_u32_bytes_weigh(id.join_epoch);
    assert forall|i: int| 0 <= i < 10 implies #[trigger] p[i] == b[12 + i] by {
        assert(b.skip(12)[i] == b[12 + i]);
    }
    assert(p[0] == b[12] && p[1] == b[13]);
    assert(p[2] == b[14] && p[3] == b[15] && p[4] == b[16] && p[5] == b[17]);
    assert(p[6] == b[18] && p[7] == b[19] && p[8] == b[20] && p[9] == b[21]);
}

/// What decoding an identity gives: whatever makes the blob refused, a length complaint if it
/// is intact but no identity, else the fields that stand in it.
pub proof fn lemma_identity_decoded(b: Seq<u8>)
    ensures
        match blob::payload_of(NvmRegion::Identity, b) {
            Err(e) => PersistentIdentity::of_blob(b) == Err::<PersistentIdentity, DecodeError>(e),
            Ok(_) => if b.len() != 22 {
                PersistentIdentity::of_blob(b) == Err::<PersistentIdentity, DecodeError>(
                    DecodeError::BadLength,
                )
            } else {
                &&& PersistentIdentity::of_blob(b) matches Ok(id)
                &&& id.dev_nonce == b[12] + 256 * b[13]
                &&& id.join_epoch == b[18] + 256 * b[19] + 65536 * b[20] + 16777216 * b[21]
                &&& match id.last_join_nonce {
                    Some(n) => n != 0xFFFF_FFFF && n == b[14] + 256 * b[15] + 65536 * b[16]
                        + 16777216 * b[17],
                    None => b[14] + 256 * b[15] + 65536 * b[16] + 16777216 * b[17] == 0xFFFF_FFFF,
                }
            },
        },
{
    if let Ok(p) = blob::payload_of(NvmRegion::Identity, b) {
        bytes::lemma_u16_at_weighs(p, 0);
        bytes::lemma_u32_at_weighs(p, 2);
        bytes::lemma_u32_at_weighs(p, 6);
        assert forall|i: int| 0 <= i < p.len() implies #[trigger] p[i] == b[12 + i] by {
            assert(b.skip(12)[i] == b[12 + i]);
        }
    }
}

/// Where the fields of a session stand in its blob, and what stands there for an absent one.
pub proof fn lemma_session_format(s: PersistentSession)
    ensures
        ({
            let b = s.blob();
            &&& b.len() == 72
            &&& b == blob::blob_of(NvmRegion::Session, b.skip(12))
            &&& b.subrange(12, 28) == s.nwkskey.0@
            &&& b.subrange(28, 44) == s.appskey.0@
            &&& b.subrange(44, 48) == s.devaddr.0@
            &&& b[48] + 256 * b[49] + 65536 * b[50] + 16777216 * b[51] == s.fcnt_up_checkpoint
            &&& b[52] + 256 * b[53] + 65536 * b[54] + 16777216 * b[55] == s.fcnt_down
            &&& b[56] + 256 * b[57] + 65536 * b[58] + 16777216 * b[59] == s.join_epoch
            &&& b[60] == s.data_rate.index()
            &&& b[61] + 256 * b[62] + 65536 * b[63] + 16777216 * b[64] == s.rx1_delay
            &&& b[65] == s.rx1_dr_offset
            &&& b[66] == (match s.rx2_data_rate {
                Some(dr) => dr.index(),
                None => 0xFF,
            })
            &&& b[67] + 256 * b[68] + 65536 * b[69] + 16777216 * b[70] == (match s.rx2_frequency {
                Some(f) => f as int,
                None => 0,
            })
            &&& b[71] == (match s.tx_power {
                Some(p) => p,
                None => 0xFF,
            })
        }),
{
    let p = s.payload();
    let b = s.blob();
    assert(p.len() == 60);
    lemma_blob_layout(NvmRegion::Session, p);
    let frequency = match s.rx2_frequency {
        Some(f) => f,
        None => 0,
    };
    assert(b =~= b.take(12) + p);
    assert(b.subrange(12, 28) =~= s.nwkskey.0@);
    assert(b.subrange(28, 44) =~= s.appskey.0@);
    assert(b.subrange(44, 48) =~= s.devaddr.0@);
    lemma_word_weighs(s.fcnt_up_checkpoint, b, 48);
    lemma_word_weighs(s.fcnt_down, b, 52);
    lemma_word_weighs(s.join_epoch, b, 56);
    lemma_word_weighs(s.rx1_delay, b, 61);
    lemma_word_weighs(frequency, b, 67);
}

/// Four bytes of a blob that hold an integer add up to it.
proof fn lemma_word_weighs(x: u32, b: Seq<u8>, at: int)
    requires
        0 <= at,
        at + 4 <= b.len(),
        b.subrange(at, at + 4) =~= bytes::u32_le(x),
    ensures
        b[at] + 256 * b[at + 1] + 65536 * b[at + 2] + 16777216 * b[at + 3] == x,
{
    let w = b.subrange(at, at + 4);
    assert(w[0] == b[at] && w[1] == b[at + 1] && w[2] == b[at + 2] && w[3] == b[at + 3]);
    bytes::lemma_u32_bytes_weigh(x);
}

/// What decoding a session gives: whatever makes the blob refused, a length complaint if it is
/// intact but no session, else the fields that stand in it. A data rate is the low half of
/// its byte.
pub proof fn lemma_session_decoded(b: Seq<u8>, r: Result<PersistentSession, DecodeError>)
    requires
        PersistentSession::decodes_to(b, r),
    ensures
        match blob::payload_of(NvmRegion::Session, b) {
            Err(e) => r == Err::<PersistentSession, DecodeError>(e),
            Ok(_) => if b.len() != 72 {
                r == Err::<PersistentSession, DecodeError>(DecodeError::BadLength)
            } else {
                &&& r matches Ok(s)
                &&& s.nwkskey.0@ == b.subrange(12, 28)
                &&& s.appskey.0@ == b.subrange(28, 44)
                &&& s.devaddr.0@ == b.subrange(44, 48)
                &&& s.fcnt_up_checkpoint == b[48] + 256 * b[49] + 65536 * b[50] + 16777216 * b[51]
                &&& s.fcnt_down == b[52] + 256 * b[53] + 65536 * b[54] + 16777216 * b[55]
                &&& s.join_epoch == b[56] + 256 * b[57] + 65536 * b[58] + 16777216 * b[59]
                &&& s.data_rate.index() == b[60] % 16
                &&& s.rx1_delay == b[61] + 256 * b[62] + 65536 * b[63] + 16777216 * b[64]
                &&& s.rx1_dr_offset == b[65]
                &&& match s.rx2_data_rate {
                    Some(dr) => b[66] != 0xFF && dr.index() == b[66] % 16,
                    None => b[66] == 0xFF,
                }
                &&& match s.rx2_frequency {
                    Some(f) => f != 0 && f == b[67] + 256 * b[68] + 65536 * b[69] + 16777216
                        * b[70],
                    None => b[67] + 256 * b[68] + 65536 * b[69] + 16777216 * b[70] == 0,
                }
                &&& match s.tx_power {
                    Some(p) => p != 0xFF && p == b[71],
                    None => b[71] == 0xFF,
                }
            },
        },
{
    if let Ok(p) = blob::payload_of(NvmRegion::Session, b) {
        assert forall|i: int| 0 <= i < p.len() implies #[trigger] p[i] == b[12 + i] by {
            assert(b.skip(12)[i] == b[12 + i]);
        }
        if p.len() == 60 {
            bytes::lemma_u32_at_weighs(p, 36);
            bytes::lemma_u32_at_weighs(p, 40);
            bytes::lemma_u32_at_weighs(p, 44);
            bytes::lemma_u32_at_weighs(p, 49);
            bytes::lemma_u32_at_weighs(p, 55);
            assert(p.subrange(0, 16) =~= b.subrange(12, 28));
            assert(p.subrange(16, 32) =~= b.subrange(28, 44));
            assert(p.subrange(32, 36) =~= b.subrange(44, 48));
        }
    }
}

/// A blob decodes to one session at most.
pub proof fn lemma_session_decoding_is_a_function(
    b: Seq<u8>,
    q: Result<PersistentSession, DecodeError>,
    r: Result<PersistentSession, DecodeError>,
)
    requires
        PersistentSession::decodes_to(b, q),
        PersistentSession::decodes_to(b, r),
    ensures
        q == r,
{
    if let (Ok(s), Ok(t)) = (q, r) {
        assert(s.nwkskey.0 =~= t.nwkskey.0);
        assert(s.appskey.0 =~= t.appskey.0);
        assert(s.devaddr.0 =~= t.devaddr.0);
        assert(s.nwkskey == t.nwkskey && s.appskey == t.appskey && s.devaddr == t.devaddr);
        types::lemma_data_rate_told_by_number(s.data_rate, t.data_rate);
        if let (Some(x), Some(y)) = (s.rx2_data_rate, t.rx2_data_rate) {
            types::lemma_data_rate_told_by_number(x, y);
        }
        assert(s == t);
    }
}

} // verus!
