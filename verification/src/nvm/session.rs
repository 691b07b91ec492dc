//! Durable session state.

use crate::bytes;
use crate::nvm::blob::{self, DecodeError};
use crate::nvm::store::NvmRegion;
use crate::types::{AppSKey, DevAddr, NwkSKey, DR};
use vstd::prelude::*;

verus! {

/// Length of the session payload.
pub const SESSION_PAYLOAD_LEN: usize = 60;

/// Encoding of an absent data rate or transmit power.
pub const ABSENT: u8 = 0xFF;

/// Durable session state, sufficient to resume sending after a cold boot that lost all
/// RAM. This is a dedicated schema, deliberately decoupled from the in-RAM session.
#[derive(Debug, Clone, PartialEq, Eq)]
pub struct PersistentSession {
    pub nwkskey: NwkSKey,
    pub appskey: AppSKey,
    pub devaddr: DevAddr,
    /// Boot resumes `fcnt_up` from here; always ahead of any counter that went on air.
    pub fcnt_up_checkpoint: u32,
    /// Exact last-accepted downlink counter (downlinks are rare; no wear concern).
    pub fcnt_down: u32,
    /// Must equal `PersistentIdentity::join_epoch` or the session is stale.
    pub join_epoch: u32,
    // Negotiated MAC state. Channel-plan state is not persisted; adding it is a schema
    // version bump.
    pub data_rate: DR,
    pub rx1_delay: u32,
    pub rx1_dr_offset: u8,
    pub rx2_data_rate: Option<DR>,
    pub rx2_frequency: Option<u32>,
    pub tx_power: Option<u8>,
}

impl PersistentSession {
    /// Payload: `nwkskey[16] | appskey[16] | devaddr[4] | fcnt_up_checkpoint u32 LE |
    /// fcnt_down u32 LE | join_epoch u32 LE | data_rate u8 | rx1_delay u32 LE |
    /// rx1_dr_offset u8 | rx2_data_rate u8 | rx2_frequency u32 LE | tx_power u8`. An absent
    /// data rate or power is [`ABSENT`], an absent frequency is 0.
    pub open spec fn payload(self) -> Seq<u8> {
        let rx2_data_rate = match self.rx2_data_rate {
            Some(dr) => dr.index(),
            None => ABSENT,
        };
        let rx2_frequency = match self.rx2_frequency {
            Some(f) => f,
            None => 0,
        };
        let tx_power = match self.tx_power {
            Some(p) => p,
            None => ABSENT,
        };
        self.nwkskey.0@ + self.appskey.0@ + self.devaddr.0@ + bytes::u32_le(self.fcnt_up_checkpoint)
            + bytes::u32_le(self.fcnt_down) + bytes::u32_le(self.join_epoch) + seq![
            self.data_rate.index(),
        ] + bytes::u32_le(self.rx1_delay) + seq![self.rx1_dr_offset, rx2_data_rate] + bytes::u32_le(
            rx2_frequency,
        ) + seq![tx_power]
    }

    /// Whether this is the session that a payload holds.
    pub open spec fn held_by(self, p: Seq<u8>) -> bool {
        &&& self.nwkskey.0@ == p.subrange(0, 16)
        &&& self.appskey.0@ == p.subrange(16, 32)
        &&& self.devaddr.0@ == p.subrange(32, 36)
        &&& self.fcnt_up_checkpoint == bytes::u32_at(p, 36)
        &&& self.fcnt_down == bytes::u32_at(p, 40)
        &&& self.join_epoch == bytes::u32_at(p, 44)
        &&& self.data_rate.index() == p[48] % 16
        &&& self.rx1_delay == bytes::u32_at(p, 49)
        &&& self.rx1_dr_offset == p[53]
        &&& match self.rx2_data_rate {
            Some(dr) => p[54] != ABSENT && dr.index() == p[54] % 16,
            None => p[54] == ABSENT,
        }
        &&& self.rx2_frequency == (if bytes::u32_at(p, 55) != 0 {
            Some(bytes::u32_at(p, 55))
        } else {
            None
        })
        &&& self.tx_power == (if p[59] != ABSENT {
            Some(p[59])
        } else {
            None
        })
    }

    /// The blob of this session.
    pub open spec fn blob(self) -> Seq<u8> {
        blob::blob_of(NvmRegion::Session, self.payload())
    }

    /// What decoding a blob gives.
    pub open spec fn decodes_to(b: Seq<u8>, r: Result<Self, DecodeError>) -> bool {
        match blob::payload_of(NvmRegion::Session, b) {
            Ok(p) => if p.len() != SESSION_PAYLOAD_LEN {
                r == Err::<Self, DecodeError>(DecodeError::BadLength)
            } else {
                r is Ok && r->Ok_0.held_by(p)
            },
            Err(e) => r == Err::<Self, DecodeError>(e),
        }
    }

    /// Encode as a self-describing blob at the front of `out` (72 bytes; one of
    /// [`MAX_BLOB_LEN`](crate::nvm::MAX_BLOB_LEN) bytes always has room), returning the
    /// encoded length. The rest of `out` is left as it is.
    pub fn encode(&self, out: &mut [u8]) -> (len: usize)
        requires
            blob::HEADER_LEN + SESSION_PAYLOAD_LEN <= old(out)@.len(),
        ensures
            len == blob::HEADER_LEN + SESSION_PAYLOAD_LEN,
            len == self.blob().len(),
            final(out)@ == bytes::overwrite(old(out)@, 0, self.blob()),
    {
        let rx2_data_rate: u8 = match self.rx2_data_rate {
            Some(dr) => dr.to_u8(),
            None => ABSENT,
        };
        let rx2_frequency: u32 = match self.rx2_frequency {
            Some(f) => f,
            None => 0,
        };
        let tx_power: u8 = match self.tx_power {
            Some(p) => p,
            None => ABSENT,
        };
        let mut p = [0u8; 60];
        bytes::put(&mut p, 0, &self.nwkskey.0);
        bytes::put(&mut p, 16, &self.appskey.0);
        bytes::put(&mut p, 32, &self.devaddr.0);
        bytes::put(&mut p, 36, &bytes::u32_to_le(self.fcnt_up_checkpoint));
        bytes::put(&mut p, 40, &bytes::u32_to_le(self.fcnt_down));
        bytes::put(&mut p, 44, &bytes::u32_to_le(self.join_epoch));
        p[48] = self.data_rate.to_u8();
        bytes::put(&mut p, 49, &bytes::u32_to_le(self.rx1_delay));
        p[53] = self.rx1_dr_offset;
        p[54] = rx2_data_rate;
        bytes::put(&mut p, 55, &bytes::u32_to_le(rx2_frequency));
        p[59] = tx_power;
        assert(p@ =~= self.payload());
        blob::encode_blob(NvmRegion::Session, &p, out)
    }

    /// Decode a stored blob. Anything but an intact session blob is rejected.
    pub fn decode(blob: &[u8]) -> (r: Result<Self, DecodeError>)
        ensures
            Self::decodes_to(blob@, r),
    {
        let p = match blob::decode_blob(NvmRegion::Session, blob) {
            Ok(p) => p,
            Err(e) => return Err(e),
        };
        if p.len() != SESSION_PAYLOAD_LEN {
            return Err(DecodeError::BadLength);
        }
        let rx2_frequency: u32 = bytes::u32_from_le(p, 55);
        Ok(
            PersistentSession {
                nwkskey: NwkSKey(bytes::array16(p, 0)),
                appskey: AppSKey(bytes::array16(p, 16)),
                devaddr: DevAddr(bytes::array4(p, 32)),
                fcnt_up_checkpoint: bytes::u32_from_le(p, 36),
                fcnt_down: bytes::u32_from_le(p, 40),
                join_epoch: bytes::u32_from_le(p, 44),
                data_rate: DR::from_u8(p[48]),
                rx1_delay: bytes::u32_from_le(p, 49),
                rx1_dr_offset: p[53],
                rx2_data_rate: if p[54] != ABSENT {
                    Some(DR::from_u8(p[54]))
                } else {
                    None
                },
                rx2_frequency: if rx2_frequency != 0 {
                    Some(rx2_frequency)
                } else {
                    None
                },
                tx_power: if p[59] != ABSENT {
                    Some(p[59])
                } else {
                    None
                },
            },
        )
    }
}

} // verus!
