//! The store that a device keeps its blobs in.

use core::fmt::Debug;
use vstd::prelude::*;

verus! {

/// Which logical slot is being read or written. The two regions have very different
/// write cadences; store implementations may want to place them accordingly.
#[derive(Debug, Clone, Copy, PartialEq, Eq, Structural)]
pub enum NvmRegion {
    /// Join anti-replay counters. Survives even a session wipe.
    Identity,
    /// Active session state. Discarded whenever it does not match the identity epoch.
    Session,
}

/// Largest encoded blob (header included) the stack will ever pass to `save` or expect
/// from `load`. Store implementations may size internal buffers with this.
pub const MAX_BLOB_LEN: usize = 96;

/// Default headroom persisted ahead of the live uplink frame counter. The `Session`
/// region is rewritten only when the live counter reaches the persisted checkpoint, and
/// boot resumes *from* the checkpoint, guaranteeing no counter reuse at the cost of
/// skipping up to this many values per power cycle (the network allows a gap of 16384).
pub const DEFAULT_FCNT_CHECKPOINT_MARGIN: u32 = 32;

/// User-supplied non-volatile store, for blocking implementations. One instance backs the
/// whole stack.
pub trait NonVolatileStoreSync {
    /// What a failed access reports.
    type Error: Debug;

    /// True for any real store; false only for [`NoNvm`]. Drives the 1.0.2/1.0.4
    /// selection at compile time.
    const PERSISTENT: bool = true;

    /// Whether [`stored`](Self::stored) models this store, and the contracts below hold of it.
    /// A store that was not verified leaves both as they are, and nothing is taken for granted
    /// of what it keeps.
    open spec fn is_modeled() -> bool {
        false
    }

    /// The current blob of `region`, `None` if there is none that can be read.
    open spec fn stored(&self, region: NvmRegion) -> Option<Seq<u8>> {
        None
    }

    /// Durably store `bytes` as the current blob for `region`, replacing any previous
    /// blob. Must not return before the data is safe against power loss. The other region
    /// keeps its blob.
    fn save(&mut self, region: NvmRegion, bytes: &[u8]) -> (r: Result<(), Self::Error>)
        ensures
            Self::is_modeled() && r is Ok ==> final(self).stored(region) == Some(bytes@),
            Self::is_modeled() && r is Ok ==> forall|other: NvmRegion|
                other != region ==> #[trigger] final(self).stored(other) == old(self).stored(other),
    ;

    /// Read the current blob for `region` into `buf`, returning its length, or
    /// `Ok(None)` if the region holds no blob that `buf` has room for. Reading changes no
    /// region.
    fn load(&mut self, region: NvmRegion, buf: &mut [u8]) -> (r: Result<
        Option<usize>,
        Self::Error,
    >)
        ensures
            final(buf)@.len() == old(buf)@.len(),
            Self::is_modeled() && r is Ok ==> forall|any: NvmRegion| #[trigger]
                final(self).stored(any) == old(self).stored(any),
            Self::is_modeled() ==> match (r, old(self).stored(region)) {
                (Ok(Some(n)), Some(blob)) => n == blob.len() && n <= final(buf)@.len()
                    && final(buf)@.take(n as int) == blob,
                (Ok(Some(_)), None) => false,
                (Ok(None), Some(blob)) => blob.len() > old(buf)@.len(),
                (Ok(None), None) => true,
                (Err(_), _) => true,
            },
    ;
}

/// Error type of [`NoNvm`].
#[derive(Debug, Clone, Copy, PartialEq, Eq, Structural)]
pub struct Unsupported;

/// The zero-sized "no NVM" store. Its presence as the store type keeps the stack at
/// LoRaWAN 1.0.2; it holds nothing and refuses every access.
#[derive(Debug, Default, Clone, Copy)]
pub struct NoNvm;

impl NonVolatileStoreSync for NoNvm {
    type Error = Unsupported;

    const PERSISTENT: bool = false;

    open spec fn is_modeled() -> bool {
        true
    }

    open spec fn stored(&self, region: NvmRegion) -> Option<Seq<u8>> {
        None
    }

    fn save(&mut self, _region: NvmRegion, _bytes: &[u8]) -> (r: Result<(), Unsupported>)
        ensures
            r == Err::<(), Unsupported>(Unsupported),
    {
        Err(Unsupported)
    }

    fn load(&mut self, _region: NvmRegion, _buf: &mut [u8]) -> (r: Result<
        Option<usize>,
        Unsupported,
    >)
        ensures
            r == Err::<Option<usize>, Unsupported>(Unsupported),
            final(_buf)@ == old(_buf)@,
    {
        Err(Unsupported)
    }
}

} // verus!
