use lorawan_nvm::flash::{
    page, FlashEvent, FlashOp, FlashOutcome, FlashStep, FlashStore, ERASED, HEADER_LEN,
    IDENTITY_OFFSET, PAGE_SIZE, SESSION_OFFSET, WRITE_SIZE,
};
use lorawan_nvm::nvm::{DecodeError, NvmRegion, PersistentIdentity, MAX_BLOB_LEN};

/// A flash in memory that the store is run on, with a count of accesses until one fails.
struct Board {
    cells: Vec<u8>,
    store: FlashStore,
    fail_after: Option<usize>,
}

#[derive(Debug, PartialEq, Eq, Clone, Copy)]
struct Broken(usize);

impl Board {
    fn new() -> Board {
        Board { cells: vec![0xA7; 0x40000], store: FlashStore::new(), fail_after: None }
    }

    /// The same flash after a reset.
    fn reset(self) -> Board {
        Board { cells: self.cells, store: FlashStore::new(), fail_after: None }
    }

    fn run(&mut self, first: FlashOp, buf: &mut [u8]) -> Result<FlashOutcome, Broken> {
        let mut op = first;
        let mut performed = 0;
        loop {
            let step = if self.fail_after == Some(performed) {
                self.store.resume(FlashEvent::Failed(Broken(performed)))
            } else {
                match op {
                    FlashOp::Erase { from, to } => {
                        assert_eq!(from % PAGE_SIZE, 0);
                        assert_eq!(to - from, PAGE_SIZE);
                        for cell in &mut self.cells[from as usize..to as usize] {
                            *cell = ERASED;
                        }
                        self.store.resume(FlashEvent::Done)
                    }
                    FlashOp::Write { offset, data } => {
                        assert_eq!(offset as usize % WRITE_SIZE, 0);
                        assert_eq!(data.len() % WRITE_SIZE, 0);
                        let at = offset as usize;
                        let target = &mut self.cells[at..at + data.len()];
                        assert!(target.iter().all(|c| *c == ERASED));
                        target.copy_from_slice(&data);
                        self.store.resume(FlashEvent::Done)
                    }
                    FlashOp::Read { offset, len } => {
                        let at = offset as usize;
                        let source = &self.cells[at..at + len];
                        if performed == 0 {
                            self.store.resume(FlashEvent::Header(source))
                        } else {
                            buf[..len].copy_from_slice(source);
                            self.store.resume(FlashEvent::Done)
                        }
                    }
                }
            };
            performed += 1;
            match step {
                FlashStep::Perform(next) => op = next,
                FlashStep::Finish(result) => return result,
            }
        }
    }

    fn wipe(&mut self) -> Result<(), Broken> {
        let op = self.store.wipe();
        let outcome = self.run(op, &mut [])?;
        assert_eq!(outcome, FlashOutcome::Wiped);
        Ok(())
    }

    fn save(&mut self, region: NvmRegion, bytes: &[u8]) -> Result<(), Broken> {
        let op = self.store.save(region, bytes);
        let outcome = self.run(op, &mut [])?;
        assert_eq!(outcome, FlashOutcome::Saved);
        Ok(())
    }

    fn load(&mut self, region: NvmRegion, buf: &mut [u8]) -> Result<Option<usize>, Broken> {
        let op = self.store.load(region, buf.len());
        match self.run(op, buf)? {
            FlashOutcome::Loaded(len) => Ok(Some(len)),
            FlashOutcome::Absent => Ok(None),
            other => panic!("a load ended as {:?}", other),
        }
    }
}

fn seed(store: &mut Board) {
    store.wipe().unwrap();
    let identity =
        PersistentIdentity { dev_nonce: 1234, last_join_nonce: Some(99), join_epoch: 12 };
    let mut blob = [0u8; MAX_BLOB_LEN];
    let n = identity.encode(&mut blob);
    store.save(NvmRegion::Identity, &blob[..n]).unwrap();
}

#[test]
fn a_wiped_regions_load_none() {
    let mut store = Board::new();
    store.wipe().unwrap();
    let mut buf = [0u8; MAX_BLOB_LEN];
    assert!(store.load(NvmRegion::Identity, &mut buf).unwrap().is_none());
    assert!(store.load(NvmRegion::Session, &mut buf).unwrap().is_none());
}

#[test]
fn b_roundtrip_and_region_independence() {
    let mut store = Board::new();
    store.wipe().unwrap();
    let identity = PersistentIdentity { dev_nonce: 41, last_join_nonce: Some(7), join_epoch: 3 };
    let mut blob = [0u8; MAX_BLOB_LEN];
    let n = identity.encode(&mut blob);
    store.save(NvmRegion::Identity, &blob[..n]).unwrap();

    let session_bytes = [0xA5u8; 64];
    store.save(NvmRegion::Session, &session_bytes).unwrap();

    let mut buf = [0u8; MAX_BLOB_LEN];
    let n = store.load(NvmRegion::Identity, &mut buf).unwrap().unwrap();
    let loaded = PersistentIdentity::decode(&buf[..n]).unwrap();
    assert_eq!(loaded.dev_nonce, 41);
    assert_eq!(loaded.last_join_nonce, Some(7));
    assert_eq!(loaded.join_epoch, 3);

    let n = store.load(NvmRegion::Session, &mut buf).unwrap().unwrap();
    assert_eq!(&buf[..n], &session_bytes);

    // Rewriting one region with a shorter blob must not disturb the other and
    // must not leak stale tail bytes past the new length.
    store.save(NvmRegion::Session, &[0x5A; 8]).unwrap();
    let n = store.load(NvmRegion::Session, &mut buf).unwrap().unwrap();
    assert_eq!(&buf[..n], &[0x5A; 8]);
    let n = store.load(NvmRegion::Identity, &mut buf).unwrap().unwrap();
    assert_eq!(PersistentIdentity::decode(&buf[..n]).unwrap().dev_nonce, 41);
}

#[test]
fn c_seed_for_reset_check() {
    let mut store = Board::new();
    seed(&mut store);
}

#[test]
fn d_check_persisted() {
    let mut seeded = Board::new();
    seed(&mut seeded);
    let mut store = seeded.reset();
    let mut buf = [0u8; MAX_BLOB_LEN];
    let n = store
        .load(NvmRegion::Identity, &mut buf)
        .unwrap()
        .expect("identity must survive reset");
    let identity = PersistentIdentity::decode(&buf[..n]).unwrap();
    assert_eq!(identity.dev_nonce, 1234);
    assert_eq!(identity.last_join_nonce, Some(99));
    assert_eq!(identity.join_epoch, 12);
}

#[test]
fn page_bytes() {
    let mut store = Board::new();
    store.save(NvmRegion::Session, &[1, 2, 3]).unwrap();
    let at = SESSION_OFFSET as usize;
    assert_eq!(
        &store.cells[at..at + 16],
        &[0x4D, 0x56, 0x4E, 0x4C, 3, 0, 0, 0, 1, 2, 3, 0xFF, 0xFF, 0xFF, 0xFF, 0xFF]
    );
    // Nothing but the page was touched.
    assert!(store.cells[..at].iter().all(|c| *c == 0xA7));
    assert!(store.cells[IDENTITY_OFFSET as usize..].iter().all(|c| *c == 0xA7));
}

#[test]
fn pages_of_regions() {
    assert_eq!(page(NvmRegion::Session), 0x3F000);
    assert_eq!(page(NvmRegion::Identity), 0x3F800);
}

#[test]
fn longest_and_empty_blobs() {
    let mut store = Board::new();
    let mut buf = [0u8; 128];
    let long = [0x33u8; MAX_BLOB_LEN + WRITE_SIZE];
    store.save(NvmRegion::Identity, &long).unwrap();
    assert_eq!(store.load(NvmRegion::Identity, &mut buf), Ok(Some(long.len())));
    assert_eq!(&buf[..long.len()], &long[..]);
    store.save(NvmRegion::Identity, &[]).unwrap();
    assert_eq!(store.load(NvmRegion::Identity, &mut buf), Ok(Some(0)));
}

#[test]
fn too_long_for_the_buffer_is_absent() {
    let mut store = Board::new();
    store.save(NvmRegion::Identity, &[9; 10]).unwrap();
    let mut small = [0u8; 9];
    assert_eq!(store.load(NvmRegion::Identity, &mut small), Ok(None));
    let mut exact = [0u8; 10];
    assert_eq!(store.load(NvmRegion::Identity, &mut exact), Ok(Some(10)));
    assert_eq!(exact, [9; 10]);
}

#[test]
fn failures_end_the_operation() {
    let mut buf = [0u8; MAX_BLOB_LEN];
    for n in 0..2 {
        let mut store = Board::new();
        store.fail_after = Some(n);
        assert_eq!(store.wipe(), Err(Broken(n)));
        assert_eq!(store.save(NvmRegion::Session, &[1; 20]), Err(Broken(n)));
        // A save that got no further than erasing leaves an absent region.
        let mut store = store.reset();
        if n == 1 {
            assert_eq!(store.load(NvmRegion::Session, &mut buf), Ok(None));
        }
        store.save(NvmRegion::Session, &[1; 20]).unwrap();
        store.fail_after = Some(n);
        assert_eq!(store.load(NvmRegion::Session, &mut buf), Err(Broken(n)));
    }
}

#[test]
fn torn_save_leaves_an_erased_tail() {
    let identity = PersistentIdentity { dev_nonce: 41, last_join_nonce: Some(7), join_epoch: 3 };
    let mut blob = [0u8; MAX_BLOB_LEN];
    let n = identity.encode(&mut blob);
    let mut store = Board::new();
    store.save(NvmRegion::Identity, &[0x11; 96]).unwrap();
    store.save(NvmRegion::Identity, &blob[..n]).unwrap();
    // Take back the last two write units.
    let at = IDENTITY_OFFSET as usize;
    for cell in &mut store.cells[at + 16..at + 32] {
        *cell = ERASED;
    }
    let mut buf = [0u8; MAX_BLOB_LEN];
    assert_eq!(store.load(NvmRegion::Identity, &mut buf), Ok(Some(n)));
    assert_eq!(&buf[..8], &blob[..8]);
    assert!(buf[8..n].iter().all(|b| *b == ERASED));
    assert_eq!(PersistentIdentity::decode(&buf[..n]), Err(DecodeError::BadCrc));
}

#[test]
fn header_is_two_words() {
    assert_eq!(HEADER_LEN, 8);
    let mut store = FlashStore::new();
    let op = store.load(NvmRegion::Session, 40);
    assert!(matches!(op, FlashOp::Read { offset: SESSION_OFFSET, len: HEADER_LEN }));
    let step: FlashStep<Broken> =
        store.resume(FlashEvent::Header(&[0x4D, 0x56, 0x4E, 0x4C, 40, 0, 0, 0]));
    assert!(matches!(
        step,
        FlashStep::Perform(FlashOp::Read { offset: 0x3F008, len: 40 })
    ));
}
