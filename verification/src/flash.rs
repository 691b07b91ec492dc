//! Keeping the two regions in the top two pages of a microcontroller's flash.
//!
//! One 2 KB page of a 256 KB bank is reserved per region. Page layout: `[magic u32 LE |
//! len u32 LE | blob, padded to the write unit]`.
//!
//! The store does not touch the flash itself. Each of its operations is a sequence of flash
//! accesses: the store names one, the driver performs it and reports how it went, and the
//! store names the next or ends the operation. Saving is erase-then-write, which is not
//! power-loss atomic; the blob's checksum detects a torn write.

pub mod laws;

use crate::bytes;
use crate::nvm::{NvmRegion, MAX_BLOB_LEN};
use vstd::prelude::*;

verus! {

/// Bytes that are erased together.
pub const PAGE_SIZE: u32 = 2048;

/// Start of the session page, from the start of the flash.
pub const SESSION_OFFSET: u32 = 0x3F000;

/// Start of the identity page, from the start of the flash.
pub const IDENTITY_OFFSET: u32 = 0x3F800;

/// First word of a page that was written: `LNVM`.
pub const MAGIC: u32 = 0x4C4E_564D;

/// Bytes before the blob.
pub const HEADER_LEN: usize = 8;

/// Bytes that are written together.
pub const WRITE_SIZE: usize = 8;

/// The value of an erased byte.
pub const ERASED: u8 = 0xFF;

/// An access that the driver is to perform.
pub enum FlashOp {
    /// Erase the bytes from `from` up to `to`.
    Erase { from: u32, to: u32 },
    /// Write `data` from `offset` on.
    Write { offset: u32, data: Vec<u8> },
    /// Read `len` bytes from `offset` on.
    Read { offset: u32, len: usize },
}

/// How an access went.
pub enum FlashEvent<'a, E> {
    /// It was performed. The bytes of a blob that was read are the caller's.
    Done,
    /// The page header was read.
    Header(&'a [u8]),
    /// It failed.
    Failed(E),
}

/// What an operation that did not fail led to.
#[derive(Debug, Clone, Copy, PartialEq, Eq, Structural)]
pub enum FlashOutcome {
    /// Both regions are erased.
    Wiped,
    /// The blob is written.
    Saved,
    /// The region holds no blob that the caller has room for.
    Absent,
    /// The blob was read and has this length.
    Loaded(usize),
}

/// What comes next.
pub enum FlashStep<E> {
    /// This access.
    Perform(FlashOp),
    /// Nothing, the operation ended.
    Finish(Result<FlashOutcome, E>),
}

/// How far an operation has come: the access that is under way, and what is left.
pub enum FlashTask {
    /// No operation is under way.
    Idle,
    /// Wiping, with the session page being erased.
    WipingSession,
    /// Wiping, with the identity page being erased.
    WipingIdentity,
    /// Saving, with the page being erased before `image` is written to it.
    Erasing { region: NvmRegion, image: Vec<u8> },
    /// Saving, with the page being written.
    Writing,
    /// Loading, with the header being read.
    ReadingHeader { region: NvmRegion, capacity: usize },
    /// Loading, with the blob being read.
    ReadingBlob { len: usize },
}

/// Start of the page of a region.
pub open spec fn page_of(region: NvmRegion) -> u32 {
    match region {
        NvmRegion::Identity => IDENTITY_OFFSET,
        NvmRegion::Session => SESSION_OFFSET,
    }
}

/// The access that erases the page of a region.
pub open spec fn erase_page(region: NvmRegion) -> FlashOp {
    FlashOp::Erase { from: page_of(region), to: (page_of(region) + PAGE_SIZE) as u32 }
}

/// The least multiple of the write unit that is not below `len`.
pub open spec fn padded(len: int) -> int {
    (len + WRITE_SIZE - 1) / WRITE_SIZE as int * WRITE_SIZE
}

/// What is written to a page to hold `blob`.
pub open spec fn image_of(blob: Seq<u8>) -> Seq<u8> {
    let content = bytes::u32_le(MAGIC) + bytes::u32_le(blob.len() as u32) + blob;
    content + Seq::new((padded(content.len() as int) - content.len()) as nat, |i: int| ERASED)
}

/// Length of the blob in the page that starts with `header`, `None` if the page was never
/// written or the length is more than `capacity`: no caller would ask for that back, so it
/// means a torn or foreign header.
pub open spec fn blob_len(header: Seq<u8>, capacity: usize) -> Option<usize> {
    let len = bytes::u32_at(header, 4);
    if bytes::u32_at(header, 0) != MAGIC || len > capacity {
        None
    } else {
        Some(len as usize)
    }
}

/// Start of the page of a region.
pub fn page(region: NvmRegion) -> (offset: u32)
    ensures
        offset == page_of(region),
{
    match region {
        NvmRegion::Identity => IDENTITY_OFFSET,
        NvmRegion::Session => SESSION_OFFSET,
    }
}

/// Appends `data` to `v`.
fn append(v: &mut Vec<u8>, data: &[u8])
    ensures
        final(v)@ == old(v)@ + data@,
{
    let ghost before = v@;
    let mut i: usize = 0;
    while i < data.len()
        invariant
            i <= data@.len(),
            v@ == before + data@.take(i as int),
        decreases data@.len() - i,
    {
        v.push(data[i]);
        i = i + 1;
        assert(v@ =~= before + data@.take(i as int));
    }
    assert(data@.take(i as int) =~= data@);
}

/// What is written to a page to hold `blob`.
fn page_image(blob: &[u8]) -> (image: Vec<u8>)
    requires
        blob@.len() <= MAX_BLOB_LEN + WRITE_SIZE,
    ensures
        image@ == image_of(blob@),
{
    let mut image: Vec<u8> = Vec::new();
    append(&mut image, &bytes::u32_to_le(MAGIC));
    append(&mut image, &bytes::u32_to_le(blob.len() as u32));
    append(&mut image, blob);
    let ghost content = image@;
    let write_len: usize = (image.len() + WRITE_SIZE - 1) / WRITE_SIZE * WRITE_SIZE;
    while image.len() < write_len
        invariant
            content.len() <= image@.len() <= write_len,
            image@ == content + Seq::new((image@.len() - content.len()) as nat, |i: int| ERASED),
        decreases write_len - image@.len(),
    {
        image.push(ERASED);
        assert(image@ =~= content + Seq::new(
            (image@.len() - content.len()) as nat,
            |i: int| ERASED,
        ));
    }
    assert(image@ =~= image_of(blob@));
    image
}

/// The flash store, between two reports of the driver.
pub struct FlashStore {
    task: FlashTask,
}

impl FlashStore {
    /// How far the operation under way has come.
    pub closed spec fn task(self) -> FlashTask {
        self.task
    }

    /// Whether a report fits the access that is under way.
    pub open spec fn expects<E>(self, event: FlashEvent<E>) -> bool {
        match event {
            FlashEvent::Failed(_) => !(self.task() is Idle),
            FlashEvent::Header(header) => self.task() is ReadingHeader && header@.len()
                == HEADER_LEN,
            FlashEvent::Done => !(self.task() is Idle) && !(self.task() is ReadingHeader),
        }
    }

    /// A store without an operation under way.
    pub fn new() -> (store: Self)
        ensures
            store.task() is Idle,
    {
        FlashStore { task: FlashTask::Idle }
    }

    /// Starts erasing both regions, the session first.
    pub fn wipe(&mut self) -> (op: FlashOp)
        ensures
            final(self).task() is WipingSession,
            op == erase_page(NvmRegion::Session),
    {
        self.task = FlashTask::WipingSession;
        FlashOp::Erase { from: SESSION_OFFSET, to: SESSION_OFFSET + PAGE_SIZE }
    }

    /// Starts replacing the blob of `region` by `bytes`: the page is erased, then written.
    pub fn save(&mut self, region: NvmRegion, bytes: &[u8]) -> (op: FlashOp)
        requires
            bytes@.len() <= MAX_BLOB_LEN + WRITE_SIZE,
        ensures
            match final(self).task() {
                FlashTask::Erasing { region: r, image } => r == region && image@ == image_of(
                    bytes@,
                ),
                _ => false,
            },
            op == erase_page(region),
    {
        let offset: u32 = page(region);
        self.task = FlashTask::Erasing { region, image: page_image(bytes) };
        FlashOp::Erase { from: offset, to: offset + PAGE_SIZE }
    }

    /// Starts reading the blob of `region` into a buffer of `capacity` bytes: the page header
    /// is read, then the blob if there is one that fits.
    pub fn load(&mut self, region: NvmRegion, capacity: usize) -> (op: FlashOp)
        ensures
            final(self).task() == (FlashTask::ReadingHeader { region, capacity }),
            op == (FlashOp::Read { offset: page_of(region), len: HEADER_LEN }),
    {
        self.task = FlashTask::ReadingHeader { region, capacity };
        FlashOp::Read { offset: page(region), len: HEADER_LEN }
    }

    /// Takes the driver's report on the access under way and says what comes next. A failure
    /// ends the operation and is passed on.
    pub fn resume<E>(&mut self, event: FlashEvent<E>) -> (step: FlashStep<E>)
        requires
            old(self).expects(event),
        ensures
            match (old(self).task(), event) {
                (_, FlashEvent::Failed(e)) => {
                    &&& final(self).task() is Idle
                    &&& step == FlashStep::Finish(Err::<FlashOutcome, E>(e))
                },
                (FlashTask::WipingSession, _) => {
                    &&& final(self).task() is WipingIdentity
                    &&& step == FlashStep::<E>::Perform(erase_page(NvmRegion::Identity))
                },
                (FlashTask::WipingIdentity, _) => {
                    &&& final(self).task() is Idle
                    &&& step == FlashStep::Finish(Ok::<FlashOutcome, E>(FlashOutcome::Wiped))
                },
                (FlashTask::Erasing { region, image }, _) => {
                    &&& final(self).task() is Writing
                    &&& step matches FlashStep::Perform(FlashOp::Write { offset, data })
                    &&& offset == page_of(region)
                    &&& data@ == image@
                },
                (FlashTask::Writing, _) => {
                    &&& final(self).task() is Idle
                    &&& step == FlashStep::Finish(Ok::<FlashOutcome, E>(FlashOutcome::Saved))
                },
                (FlashTask::ReadingHeader { region, capacity }, FlashEvent::Header(header)) => {
                    match blob_len(header@, capacity) {
                        None => {
                            &&& final(self).task() is Idle
                            &&& step == FlashStep::Finish(
                                Ok::<FlashOutcome, E>(FlashOutcome::Absent),
                            )
                        },
                        Some(len) => {
                            &&& final(self).task() == (FlashTask::ReadingBlob { len })
                            &&& step == FlashStep::<E>::Perform(
                                FlashOp::Read {
                                    offset: (page_of(region) + HEADER_LEN) as u32,
                                    len,
                                },
                            )
                        },
                    }
                },
                (FlashTask::ReadingBlob { len }, _) => {
                    &&& final(self).task() is Idle
                    &&& step == FlashStep::Finish(Ok::<FlashOutcome, E>(FlashOutcome::Loaded(len)))
                },
                _ => false,
            },
    {
        let mut task = FlashTask::Idle;
        core::mem::swap(&mut task, &mut self.task);
        let header = match event {
            FlashEvent::Failed(e) => return FlashStep::Finish(Err(e)),
            FlashEvent::Header(header) => Some(header),
            FlashEvent::Done => None,
        };
        match (task, header) {
            (FlashTask::WipingSession, _) => {
                self.task = FlashTask::WipingIdentity;
                FlashStep::Perform(
                    FlashOp::Erase { from: IDENTITY_OFFSET, to: IDENTITY_OFFSET + PAGE_SIZE },
                )
            },
            (FlashTask::WipingIdentity, _) => FlashStep::Finish(Ok(FlashOutcome::Wiped)),
            (FlashTask::Erasing { region, image }, _) => {
                self.task = FlashTask::Writing;
                FlashStep::Perform(FlashOp::Write { offset: page(region), data: image })
            },
            (FlashTask::Writing, _) => FlashStep::Finish(Ok(FlashOutcome::Saved)),
            (FlashTask::ReadingHeader { region, capacity }, Some(header)) => {
                let magic: u32 = bytes::u32_from_le(header, 0);
                let stored: u32 = bytes::u32_from_le(header, 4);
                if magic != MAGIC || stored as usize > capacity {
                    return FlashStep::Finish(Ok(FlashOutcome::Absent));
                }
                let len: usize = stored as usize;
                self.task = FlashTask::ReadingBlob { len };
                FlashStep::Perform(
                    FlashOp::Read { offset: page(region) + HEADER_LEN as u32, len },
                )
            },
            (FlashTask::ReadingBlob { len }, _) => {
                FlashStep::Finish(Ok(FlashOutcome::Loaded(len)))
            },
            _ => FlashStep::Finish(Ok(FlashOutcome::Absent)),
        }
    }
}

} // verus!
