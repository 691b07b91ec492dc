//! Little-endian integers and byte copies in fixed-layout buffers.

use vstd::prelude::*;

verus! {

/// `x` as two bytes, lowest first.
pub open spec fn u16_le(x: u16) -> Seq<u8> {
    seq![(x % 256) as u8, (x / 256) as u8]
}

/// `x` as four bytes, lowest first.
pub open spec fn u32_le(x: u32) -> Seq<u8> {
    seq![
        (x % 256) as u8,
        (x / 256 % 256) as u8,
        (x / 65536 % 256) as u8,
        (x / 16777216) as u8,
    ]
}

/// The two bytes of `s` from `at` on, read lowest first.
pub open spec fn u16_at(s: Seq<u8>, at: int) -> u16 {
    (s[at] + 256 * s[at + 1]) as u16
}

/// The four bytes of `s` from `at` on, read lowest first.
pub open spec fn u32_at(s: Seq<u8>, at: int) -> u32 {
    (s[at] + 256 * s[at + 1] + 65536 * s[at + 2] + 16777216 * s[at + 3]) as u32
}

/// `out` with `data` written over it from `at` on.
pub open spec fn overwrite(out: Seq<u8>, at: int, data: Seq<u8>) -> Seq<u8> {
    Seq::new(
        out.len(),
        |i: int|
            if at <= i < at + data.len() {
                data[i - at]
            } else {
                out[i]
            },
    )
}

/// Copies `data` over `out` from `at` on.
pub fn put(out: &mut [u8], at: usize, data: &[u8])
    requires
        at + data@.len() <= old(out)@.len(),
    ensures
        final(out)@ == overwrite(old(out)@, at as int, data@),
        final(out)@ == old(out)@.take(at as int) + data@ + old(out)@.skip(at + data@.len()),
{
    let ghost before = out@;
    let capacity: usize = out.len();
    let mut i: usize = 0;
    while i < data.len()
        invariant
            i <= data@.len(),
            at + data@.len() <= before.len() == capacity,
            out@.len() == before.len(),
            out@ == overwrite(before, at as int, data@.take(i as int)),
        decreases data@.len() - i,
    {
        out[at + i] = data[i];
        i = i + 1;
        assert(out@ =~= overwrite(before, at as int, data@.take(i as int)));
    }
    assert(data@.take(i as int) =~= data@);
    proof {
        lemma_overwrite_replaces_span(before, at as int, data@);
    }
}

/// `x` as two bytes, lowest first.
pub fn u16_to_le(x: u16) -> (b: [u8; 2])
    ensures
        b@ == u16_le(x),
{
    let b = [(x % 256) as u8, (x / 256) as u8];
    assert(b@ =~= u16_le(x));
    b
}

/// `x` as four bytes, lowest first.
pub fn u32_to_le(x: u32) -> (b: [u8; 4])
    ensures
        b@ == u32_le(x),
{
    let b = [
        (x % 256) as u8,
        (x / 256 % 256) as u8,
        (x / 65536 % 256) as u8,
        (x / 16777216) as u8,
    ];
    assert(b@ =~= u32_le(x));
    b
}

/// The two bytes of `s` from `at` on, read lowest first.
pub fn u16_from_le(s: &[u8], at: usize) -> (x: u16)
    requires
        at + 2 <= s@.len(),
    ensures
        x == u16_at(s@, at as int),
{
    s[at] as u16 + 256 * s[at + 1] as u16
}

/// The four bytes of `s` from `at` on, read lowest first.
pub fn u32_from_le(s: &[u8], at: usize) -> (x: u32)
    requires
        at + 4 <= s@.len(),
    ensures
        x == u32_at(s@, at as int),
{
    s[at] as u32 + 256 * s[at + 1] as u32 + 65536 * s[at + 2] as u32 + 16777216 * s[at + 3] as u32
}

/// The four bytes of `s` from `at` on.
pub fn array4(s: &[u8], at: usize) -> (a: [u8; 4])
    requires
        at + 4 <= s@.len(),
    ensures
        a@ == s@.subrange(at as int, at + 4),
{
    let a = [s[at], s[at + 1], s[at + 2], s[at + 3]];
    assert(a@ =~= s@.subrange(at as int, at + 4));
    a
}

/// The sixteen bytes of `s` from `at` on.
pub fn array16(s: &[u8], at: usize) -> (a: [u8; 16])
    requires
        at + 16 <= s@.len(),
    ensures
        a@ == s@.subrange(at as int, at + 16),
{
    let mut a = [0u8; 16];
    let (_, from) = s.split_at(at);
    let (chunk, _) = from.split_at(16);
    put(&mut a, 0, chunk);
    assert(a@ =~= s@.subrange(at as int, at + 16));
    a
}

/// Reading back a two-byte integer gives what was written.
pub proof fn lemma_u16_reads_back(x: u16, s: Seq<u8>, at: int)
    requires
        0 <= at,
        at + 2 <= s.len(),
        s.subrange(at, at + 2) == u16_le(x),
    ensures
        u16_at(s, at) == x,
{
    let w = s.subrange(at, at + 2);
    assert(w[0] == s[at] && w[1] == s[at + 1]);
}

/// Reading back a four-byte integer gives what was written.
pub proof fn lemma_u32_reads_back(x: u32, s: Seq<u8>, at: int)
    requires
        0 <= at,
        at + 4 <= s.len(),
        s.subrange(at, at + 4) == u32_le(x),
    ensures
        u32_at(s, at) == x,
{
    let w = s.subrange(at, at + 4);
    assert(w[0] == s[at] && w[1] == s[at + 1] && w[2] == s[at + 2] && w[3] == s[at + 3]);
}

/// Writing a four-byte integer gives back the bytes it was read from.
pub proof fn lemma_u32_writes_back(s: Seq<u8>, at: int)
    requires
        0 <= at,
        at + 4 <= s.len(),
    ensures
        u32_le(u32_at(s, at)) == s.subrange(at, at + 4),
{
    let (a, b, c, d) = (s[at] as int, s[at + 1] as int, s[at + 2] as int, s[at + 3] as int);
    let x = u32_at(s, at);
    assert(x as int == a + 256 * (b + 256 * (c + 256 * d)));
    assert(x / 256 == b + 256 * (c + 256 * d));
    assert(x / 65536 == c + 256 * d);
    assert(x / 16777216 == d);
    assert(u32_le(x) =~= s.subrange(at, at + 4));
}

/// Writing a two-byte integer gives back the bytes it was read from.
pub proof fn lemma_u16_writes_back(s: Seq<u8>, at: int)
    requires
        0 <= at,
        at + 2 <= s.len(),
    ensures
        u16_le(u16_at(s, at)) == s.subrange(at, at + 2),
{
    assert(u16_le(u16_at(s, at)) =~= s.subrange(at, at + 2));
}

/// The bytes of a two-byte integer add up to it, the second weighing 256 times the first.
pub proof fn lemma_u16_bytes_weigh(x: u16)
    ensures
        u16_le(x).len() == 2,
        u16_le(x)[0] + 256 * u16_le(x)[1] == x,
{
}

/// The bytes of a four-byte integer add up to it, each weighing 256 times the one before.
pub proof fn lemma_u32_bytes_weigh(x: u32)
    ensures
        u32_le(x).len() == 4,
        u32_le(x)[0] + 256 * u32_le(x)[1] + 65536 * u32_le(x)[2] + 16777216 * u32_le(x)[3] == x,
{
}

/// A two-byte integer read from bytes is their weighted sum, whatever they are.
pub proof fn lemma_u16_at_weighs(s: Seq<u8>, at: int)
    ensures
        u16_at(s, at) as int == s[at] + 256 * s[at + 1],
{
}

/// A four-byte integer read from bytes is their weighted sum, whatever they are.
pub proof fn lemma_u32_at_weighs(s: Seq<u8>, at: int)
    ensures
        u32_at(s, at) as int == s[at] + 256 * s[at + 1] + 65536 * s[at + 2] + 16777216 * s[at + 3],
{
}

/// Overwriting replaces one span by the data and keeps the length and all that is around it.
pub proof fn lemma_overwrite_replaces_span(out: Seq<u8>, at: int, data: Seq<u8>)
    requires
        0 <= at,
        at + data.len() <= out.len(),
    ensures
        overwrite(out, at, data) == out.take(at) + data + out.skip(at + data.len()),
{
    assert(overwrite(out, at, data) =~= out.take(at) + data + out.skip(at + data.len()));
}

} // verus!
