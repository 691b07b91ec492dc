//! Non-volatile storage support for LoRaWAN 1.0.4 operation.
//!
//! Providing a store to the device enables LoRaWAN 1.0.4 behavior (monotonic DevNonce,
//! JoinNonce replay protection, full session resume across power loss). Without a store
//! (the default, [`NoNvm`]), the stack behaves as LoRaWAN 1.0.2: random DevNonce and no
//! persistence.
//!
//! Two logical regions are stored, split because their write rates differ by orders of
//! magnitude:
//! - [`NvmRegion::Identity`]: DevNonce/JoinNonce counters. Tiny, written around joins only,
//!   never reset for the life of the device.
//! - [`NvmRegion::Session`]: session keys, frame counters and negotiated MAC state.
//!   Written on join, on accepted downlinks, and when the uplink counter crosses its
//!   wear-leveling checkpoint.
//!
//! Surviving power loss in the middle of a write is the store's responsibility. Blobs carry a
//! CRC-protected header, so that a torn write is detected and treated as an absent region
//! rather than trusted.

pub mod blob;
pub mod identity;
pub mod laws;
pub mod session;
pub mod store;

pub use blob::{
    decode_blob, encode_blob, region_tag, schema_version, DecodeError, HEADER_LEN,
    IDENTITY_SCHEMA_VERSION, SESSION_SCHEMA_VERSION,
};
pub use identity::{PersistentIdentity, IDENTITY_PAYLOAD_LEN, JOIN_NONCE_NONE};
pub use session::{PersistentSession, SESSION_PAYLOAD_LEN};
pub use store::{
    NoNvm, NonVolatileStoreSync, NvmRegion, Unsupported, DEFAULT_FCNT_CHECKPOINT_MARGIN,
    MAX_BLOB_LEN,
};
