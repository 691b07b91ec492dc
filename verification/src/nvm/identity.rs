//! Durable join anti-replay state.

use crate::bytes;
use crate::nvm::blob::{self, DecodeError};
use crate::nvm::store::NvmRegion;
use vstd::prelude::*;

verus! {

/// Length of the identity payload.
pub const IDENTITY_PAYLOAD_LEN: usize = 10;

/// Sentinel encoding of `last_join_nonce: None`; JoinNonce is a 3-byte field on the
/// wire, so this value can never be a real nonce.
pub const JOIN_NONCE_NONE: u32 = 0xFFFF_FFFF;

/// Durable join anti-replay state; the block that makes a device 1.0.4-legal against a
/// real join server. Written around joins only, monotonic, never reset.
#[derive(Debug, Clone, Copy, PartialEq, Eq, Structural)]
pub struct PersistentIdentity {
    /// 1.0.4 monotonic join counter; +1 per JoinRequest, never resets.
    pub dev_nonce: u16,
    /// JoinNonce of the last JoinAccept that was accepted; one that carries it again is a
    /// replay. `None` until the first successful join.
    pub last_join_nonce: Option<u32>,
    /// Bumps on each successful join; ties a session blob to this identity.
    pub join_epoch: u32,
}

impl Default for PersistentIdentity {
    fn default() -> (id: Self)
        ensures
            id == (PersistentIdentity { dev_nonce: 0, last_join_nonce: None, join_epoch: 0 }),
    {
        PersistentIdentity { dev_nonce: 0, last_join_nonce: None, join_epoch: 0 }
    }
}

impl PersistentIdentity {
    /// Payload: `dev_nonce u16 LE | last_join_nonce u32 LE | join_epoch u32 LE`.
    pub open spec fn payload(self) -> Seq<u8> {
        let nonce = match self.last_join_nonce {
            Some(n) => n,
            None => JOIN_NONCE_NONE,
        };
        bytes::u16_le(self.dev_nonce) + bytes::u32_le(nonce) + bytes::u32_le(self.join_epoch)
    }

    /// The identity that a payload holds.
    pub open spec fn of_payload(p: Seq<u8>) -> Self {
        let nonce = bytes::u32_at(p, 2);
        PersistentIdentity {
            dev_nonce: bytes::u16_at(p, 0),
            last_join_nonce: if nonce != JOIN_NONCE_NONE {
                Some(nonce)
            } else {
                None
            },
            join_epoch: bytes::u32_at(p, 6),
        }
    }

    /// The blob of this identity.
    pub open spec fn blob(self) -> Seq<u8> {
        blob::blob_of(NvmRegion::Identity, self.payload())
    }

    /// The identity that a blob holds, or why it is rejected.
    pub open spec fn of_blob(b: Seq<u8>) -> Result<Self, DecodeError> {
        match blob::payload_of(NvmRegion::Identity, b) {
            Ok(p) => if p.len() != IDENTITY_PAYLOAD_LEN {
                Err(DecodeError::BadLength)
            } else {
                Ok(Self::of_payload(p))
            },
            Err(e) => Err(e),
        }
    }

    /// Encode as a self-describing blob at the front of `out` (22 bytes; one of
    /// [`MAX_BLOB_LEN`](crate::nvm::MAX_BLOB_LEN) bytes always has room), returning the
    /// encoded length. The rest of `out` is left as it is.
    pub fn encode(&self, out: &mut [u8]) -> (len: usize)
        requires
            blob::HEADER_LEN + IDENTITY_PAYLOAD_LEN <= old(out)@.len(),
        ensures
            len == blob::HEADER_LEN + IDENTITY_PAYLOAD_LEN,
            len == self.blob().len(),
            final(out)@ == bytes::overwrite(old(out)@, 0, self.blob()),
    {
        let nonce: u32 = match self.last_join_nonce {
            Some(n) => n,
            None => JOIN_NONCE_NONE,
        };
        let mut p = [0u8; 10];
        bytes::put(&mut p, 0, &bytes::u16_to_le(self.dev_nonce));
        bytes::put(&mut p, 2, &bytes::u32_to_le(nonce));
        bytes::put(&mut p, 6, &bytes::u32_to_le(self.join_epoch));
        assert(p@ =~= self.payload());
        blob::encode_blob(NvmRegion::Identity, &p, out)
    }

    /// Decode a stored blob. Anything but an intact identity blob is rejected.
    pub fn decode(blob: &[u8]) -> (r: Result<Self, DecodeError>)
        ensures
            r == Self::of_blob(blob@),
    {
        let p = match blob::decode_blob(NvmRegion::Identity, blob) {
            Ok(p) => p,
            Err(e) => return Err(e),
        };
        if p.len() != IDENTITY_PAYLOAD_LEN {
            return Err(DecodeError::BadLength);
        }
        let nonce: u32 = bytes::u32_from_le(p, 2);
        Ok(
            PersistentIdentity {
                dev_nonce: bytes::u16_from_le(p, 0),
                last_join_nonce: if nonce != JOIN_NONCE_NONE {
                    Some(nonce)
                } else {
                    None
                },
                join_epoch: bytes::u32_from_le(p, 6),
            },
        )
    }
}

} // verus!
