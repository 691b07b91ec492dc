//! What holds of the flash store as a whole, over a flash that does what it is asked.

use crate::bytes;
use crate::flash;
use crate::flash::{
    FlashEvent, FlashOp, FlashStore, ERASED, HEADER_LEN, IDENTITY_OFFSET, MAGIC, PAGE_SIZE, SESSION_OFFSET, WRITE_SIZE,
};
use crate::nvm::{NvmRegion, MAX_BLOB_LEN};
use vstd::prelude::*;

verus! {

/// Contents of a flash after an access.
pub open spec fn flash_after(flash: Seq<u8>, op: FlashOp) -> Seq<u8> {
    match op {
        FlashOp::Erase { from, to } => Seq::new(
            flash.len(),
            |i: int|
                if from <= i < to {
                    ERASED
                } else {
                    flash[i]
                },
        ),
        FlashOp::Write { offset, data } => bytes::overwrite(flash, offset as int, data@),
        FlashOp::Read { .. } => flash,
    }
}

/// Whether an access writes `blob` to the page of `region`.
pub open spec fn writes(op: FlashOp, region: NvmRegion, blob: Seq<u8>) -> bool {
    op matches FlashOp::Write { offset, data } && offset == flash::page_of(region) && data@
        == flash::image_of(blob)
}

/// What loading `region` into a buffer of `capacity` bytes gives.
pub open spec fn loaded(flash: Seq<u8>, region: NvmRegion, capacity: usize) -> Option<Seq<u8>> {
    let page = flash::page_of(region) as int;
    match flash::blob_len(flash.subrange(page, page + HEADER_LEN), capacity) {
        Some(len) => Some(flash.subrange(page + HEADER_LEN, page + HEADER_LEN + len)),
        None => None,
    }
}

/// Whether a flash reaches up to the end of the pages that the store uses.
pub open spec fn large_enough(flash: Seq<u8>) -> bool {
    flash.len() >= IDENTITY_OFFSET + PAGE_SIZE
}

/// The pages of the two regions do not overlap, start on a page boundary and end with the
/// bank.
pub proof fn lemma_pages_apart()
    ensures
        flash::page_of(NvmRegion::Session) + PAGE_SIZE == flash::page_of(NvmRegion::Identity),
        flash::page_of(NvmRegion::Identity) + PAGE_SIZE == 0x40000,
        forall|region: NvmRegion| #[trigger] flash::page_of(region) % PAGE_SIZE == 0,
{
}

/// The largest blob fits its page, and what is written is a whole number of write units that
/// stays within the page.
pub proof fn lemma_image_fits(blob: Seq<u8>)
    requires
        blob.len() <= MAX_BLOB_LEN + WRITE_SIZE,
    ensures
        flash::image_of(blob).len() % WRITE_SIZE as nat == 0,
        HEADER_LEN + blob.len() <= flash::image_of(blob).len() < HEADER_LEN + blob.len()
            + WRITE_SIZE,
        flash::image_of(blob).len() <= PAGE_SIZE,
{
}

/// The parts of a page image.
proof fn lemma_image_layout(blob: Seq<u8>)
    requires
        blob.len() <= MAX_BLOB_LEN + WRITE_SIZE,
    ensures
        ({
            let image = flash::image_of(blob);
            &&& bytes::u32_at(image, 0) == MAGIC
            &&& bytes::u32_at(image, 4) == blob.len()
            &&& image.subrange(HEADER_LEN as int, HEADER_LEN + blob.len()) == blob
        }),
{
    let image = flash::image_of(blob);
    lemma_image_fits(blob);
    assert(image.subrange(0, 4) =~= bytes::u32_le(MAGIC));
    bytes::lemma_u32_reads_back(MAGIC, image, 0);
    assert(image.subrange(4, 8) =~= bytes::u32_le(blob.len() as u32));
    bytes::lemma_u32_reads_back(blob.len() as u32, image, 4);
    assert(image.subrange(HEADER_LEN as int, HEADER_LEN + blob.len()) =~= blob);
}

/// A page that starts with the magic and a length loads as that many of its bytes.
proof fn lemma_page_loads(flash: Seq<u8>, region: NvmRegion, len: u32, capacity: usize)
    requires
        large_enough(flash),
        bytes::u32_at(flash, flash::page_of(region) as int) == MAGIC,
        bytes::u32_at(flash, flash::page_of(region) + 4) == len,
        len <= capacity,
    ensures
        loaded(flash, region, capacity) == Some(
            flash.subrange(
                flash::page_of(region) + HEADER_LEN,
                flash::page_of(region) + HEADER_LEN + len,
            ),
        ),
{
    let page = flash::page_of(region) as int;
    let header = flash.subrange(page, page + HEADER_LEN);
    assert(header[0] == flash[page] && header[1] == flash[page + 1] && header[2] == flash[page + 2]
        && header[3] == flash[page + 3]);
    assert(header[4] == flash[page + 4] && header[5] == flash[page + 5] && header[6] == flash[page
        + 6] && header[7] == flash[page + 7]);
    assert(bytes::u32_at(header, 0) == bytes::u32_at(flash, page));
    assert(bytes::u32_at(header, 4) == bytes::u32_at(flash, page + 4));
}

/// Integers read from two places with the same bytes are the same.
proof fn lemma_same_bytes_same_word(a: Seq<u8>, i: int, b: Seq<u8>, j: int)
    requires
        a[i] == b[j],
        a[i + 1] == b[j + 1],
        a[i + 2] == b[j + 2],
        a[i + 3] == b[j + 3],
    ensures
        bytes::u32_at(a, i) == bytes::u32_at(b, j),
{
}

/// A saved blob is loaded back as it was, whatever the page held before: no byte of a longer
/// blob that it replaced shows.
pub proof fn lemma_saved_blob_loads_back(
    flash: Seq<u8>,
    region: NvmRegion,
    blob: Seq<u8>,
    write: FlashOp,
    capacity: usize,
)
    requires
        large_enough(flash),
        blob.len() <= MAX_BLOB_LEN + WRITE_SIZE,
        blob.len() <= capacity,
        writes(write, region, blob),
    ensures
        loaded(
            flash_after(flash_after(flash, flash::erase_page(region)), write),
            region,
            capacity,
        ) == Some(blob),
{
    let page = flash::page_of(region) as int;
    let image = flash::image_of(blob);
    let after = flash_after(flash_after(flash, flash::erase_page(region)), write);
    lemma_image_fits(blob);
    lemma_image_layout(blob);
    lemma_same_bytes_same_word(after, page, image, 0);
    lemma_same_bytes_same_word(after, page + 4, image, 4);
    lemma_page_loads(after, region, blob.len() as u32, capacity);
    assert(after.subrange(page + HEADER_LEN, page + HEADER_LEN + blob.len()) =~= image.subrange(
        HEADER_LEN as int,
        HEADER_LEN + blob.len(),
    ));
}

/// Saving one region does not disturb the other, for buffers up to what a page can hold.
pub proof fn lemma_save_keeps_other_region(
    flash: Seq<u8>,
    region: NvmRegion,
    other: NvmRegion,
    blob: Seq<u8>,
    write: FlashOp,
    capacity: usize,
)
    requires
        large_enough(flash),
        region != other,
        blob.len() <= MAX_BLOB_LEN + WRITE_SIZE,
        capacity <= PAGE_SIZE - HEADER_LEN,
        writes(write, region, blob),
    ensures
        loaded(
            flash_after(flash_after(flash, flash::erase_page(region)), write),
            other,
            capacity,
        ) == loaded(flash, other, capacity),
{
    let page = flash::page_of(other) as int;
    let after = flash_after(flash_after(flash, flash::erase_page(region)), write);
    lemma_image_fits(blob);
    assert(after.subrange(page, page + HEADER_LEN) =~= flash.subrange(page, page + HEADER_LEN));
    if let Some(len) = flash::blob_len(flash.subrange(page, page + HEADER_LEN), capacity) {
        assert(after.subrange(page + HEADER_LEN, page + HEADER_LEN + len) =~= flash.subrange(
            page + HEADER_LEN,
            page + HEADER_LEN + len,
        ));
    }
}

/// An erased page holds no blob. This is also what a save leaves behind that was interrupted
/// between erasing and writing.
pub proof fn lemma_erased_page_is_absent(flash: Seq<u8>, region: NvmRegion, capacity: usize)
    requires
        large_enough(flash),
    ensures
        loaded(flash_after(flash, flash::erase_page(region)), region, capacity) is None,
{
    let page = flash::page_of(region) as int;
    let after = flash_after(flash, flash::erase_page(region));
    let header = after.subrange(page, page + HEADER_LEN);
    assert(header[0] == ERASED && header[1] == ERASED && header[2] == ERASED && header[3]
        == ERASED);
}

/// A save that was interrupted in the middle of writing, after `done` bytes and at least the
/// header, loads as a blob of the full length whose bytes from there on are erased. Nothing
/// of what the page held before shows.
pub proof fn lemma_torn_save_loads_erased_tail(
    flash: Seq<u8>,
    region: NvmRegion,
    blob: Seq<u8>,
    done: int,
    capacity: usize,
)
    requires
        large_enough(flash),
        blob.len() <= MAX_BLOB_LEN + WRITE_SIZE,
        blob.len() <= capacity,
        HEADER_LEN <= done <= flash::image_of(blob).len(),
    ensures
        loaded(
            bytes::overwrite(
                flash_after(flash, flash::erase_page(region)),
                flash::page_of(region) as int,
                flash::image_of(blob).take(done),
            ),
            region,
            capacity,
        ) == Some(
            Seq::new(
                blob.len(),
                |i: int|
                    if i < done - HEADER_LEN {
                        blob[i]
                    } else {
                        ERASED
                    },
            ),
        ),
{
    let page = flash::page_of(region) as int;
    let image = flash::image_of(blob);
    let erased = flash_after(flash, flash::erase_page(region));
    let after = bytes::overwrite(erased, page, image.take(done));
    lemma_image_fits(blob);
    lemma_image_layout(blob);
    lemma_same_bytes_same_word(after, page, image, 0);
    lemma_same_bytes_same_word(after, page + 4, image, 4);
    lemma_page_loads(after, region, blob.len() as u32, capacity);
    let got = after.subrange(page + HEADER_LEN, page + HEADER_LEN + blob.len());
    assert forall|i: int| 0 <= i < blob.len() implies got[i] == (if i < done - HEADER_LEN {
        blob[i]
    } else {
        ERASED
    }) by {
        assert(image.subrange(HEADER_LEN as int, HEADER_LEN + blob.len())[i] == image[HEADER_LEN
            + i]);
    }
    assert(got =~= Seq::new(
        blob.len(),
        |i: int|
            if i < done - HEADER_LEN {
                blob[i]
            } else {
                ERASED
            },
    ));
}

/// After both pages are erased, neither region holds a blob.
pub proof fn lemma_wiped_regions_are_absent(flash: Seq<u8>, region: NvmRegion, capacity: usize)
    requires
        large_enough(flash),
    ensures
        loaded(
            flash_after(
                flash_after(flash, flash::erase_page(NvmRegion::Session)),
                flash::erase_page(NvmRegion::Identity),
            ),
            region,
            capacity,
        ) is None,
{
    let once = flash_after(flash, flash::erase_page(NvmRegion::Session));
    let twice = flash_after(once, flash::erase_page(NvmRegion::Identity));
    lemma_erased_page_is_absent(once, NvmRegion::Identity, capacity);
    lemma_erased_page_is_absent(flash, NvmRegion::Session, capacity);
    let page = SESSION_OFFSET as int;
    assert(twice.subrange(page, page + HEADER_LEN) =~= once.subrange(page, page + HEADER_LEN));
}

/// Which bytes of the flash the regions own, and erasing a region erases just these.
pub proof fn lemma_regions_placed(region: NvmRegion)
    ensures
        flash::page_of(NvmRegion::Session) == 0x3F000,
        flash::page_of(NvmRegion::Identity) == 0x3F800,
        flash::erase_page(region) matches FlashOp::Erase { from, to } && from == flash::page_of(
            region,
        ) && to == flash::page_of(region) + 2048,
{
}

/// What a page image holds, byte by byte: `LNVM` as a little-endian word, the length of the
/// blob, the blob, and erased bytes up to the next multiple of eight.
pub proof fn lemma_image_format(blob: Seq<u8>)
    requires
        blob.len() <= 104,
    ensures
        ({
            let image = flash::image_of(blob);
            &&& image.len() % 8 == 0
            &&& 8 + blob.len() <= image.len() < 16 + blob.len()
            &&& image[0] == 0x4D && image[1] == 0x56 && image[2] == 0x4E && image[3] == 0x4C
            &&& image[4] + 256 * image[5] + 65536 * image[6] + 16777216 * image[7] == blob.len()
            &&& image.subrange(8, 8 + blob.len() as int) == blob
            &&& forall|i: int| 8 + blob.len() <= i < image.len() ==> image[i] == 0xFF
        }),
{
    let image = flash::image_of(blob);
    lemma_image_fits(blob);
    assert(image.subrange(8, 8 + blob.len() as int) =~= blob);
    assert(image[0] == 0x4D && image[1] == 0x56 && image[2] == 0x4E && image[3] == 0x4C) by {
        let word = bytes::u32_le(MAGIC);
        assert(word[0] == 0x4D && word[1] == 0x56 && word[2] == 0x4E && word[3] == 0x4C);
        assert(image.subrange(0, 4) =~= word);
        assert(image.subrange(0, 4)[0] == image[0] && image.subrange(0, 4)[1] == image[1]);
        assert(image.subrange(0, 4)[2] == image[2] && image.subrange(0, 4)[3] == image[3]);
    }
    assert(image[4] + 256 * image[5] + 65536 * image[6] + 16777216 * image[7] == blob.len()) by {
        bytes::lemma_u32_bytes_weigh(blob.len() as u32);
        let word = bytes::u32_le(blob.len() as u32);
        assert(image.subrange(4, 8) =~= word);
        assert(image.subrange(4, 8)[0] == image[4] && image.subrange(4, 8)[1] == image[5]);
        assert(image.subrange(4, 8)[2] == image[6] && image.subrange(4, 8)[3] == image[7]);
    }
}

/// A page header tells of a blob exactly if it starts with `LNVM` as a little-endian word and
/// the length after it is one that the caller has room for.
pub proof fn lemma_header_tells_length(header: Seq<u8>, capacity: usize)
    requires
        header.len() == 8,
    ensures
        ({
            let len = header[4] + 256 * header[5] + 65536 * header[6] + 16777216 * header[7];
            match flash::blob_len(header, capacity) {
                Some(n) => {
                    &&& header == seq![0x4Du8, 0x56, 0x4E, 0x4C] + header.skip(4)
                    &&& n == len
                    &&& len <= capacity
                },
                None => header.take(4) != seq![0x4Du8, 0x56, 0x4E, 0x4C] || len > capacity,
            }
        }),
{
    bytes::lemma_u32_at_weighs(header, 0);
    bytes::lemma_u32_at_weighs(header, 4);
    if flash::blob_len(header, capacity) is Some {
        assert(header =~= seq![0x4Du8, 0x56, 0x4E, 0x4C] + header.skip(4));
    } else if header.take(4) == seq![0x4Du8, 0x56, 0x4E, 0x4C] {
        let word = header.take(4);
        assert(word[0] == header[0] && word[1] == header[1] && word[2] == header[2] && word[3]
            == header[3]);
    }
}

/// Whatever access is under way may fail, and a report that fits it is always taken.
pub proof fn lemma_reports_taken<E>(store: FlashStore, e: E, header: &[u8])
    requires
        header@.len() == 8,
    ensures
        store.task() is Idle || store.expects(FlashEvent::Failed(e)),
        store.task() is ReadingHeader ==> store.expects(FlashEvent::<E>::Header(header)),
        store.task() is Idle || store.task() is ReadingHeader || store.expects(
            FlashEvent::<E>::Done,
        ),
{
}

} // verus!
