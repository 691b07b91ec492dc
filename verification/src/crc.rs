//! CRC-32 (reflected polynomial `0xEDB8_8320`, inverted input and output) and what it detects.

use vstd::prelude::*;

verus! {

/// The generator polynomial, lowest-order coefficient in the top bit.
pub const POLYNOMIAL: u32 = 0xEDB8_8320;

/// The CRC register after one more message bit: multiplication by `x` modulo the polynomial.
pub open spec fn shift(crc: u32) -> u32 {
    if crc & 1 == 1 {
        (crc >> 1) ^ POLYNOMIAL
    } else {
        crc >> 1
    }
}

/// The CRC register after `n` more message bits.
pub open spec fn shift_n(crc: u32, n: nat) -> u32
    decreases n,
{
    if n == 0 {
        crc
    } else {
        shift(shift_n(crc, (n - 1) as nat))
    }
}

/// The CRC register after one message byte.
pub open spec fn absorb(crc: u32, byte: u8) -> u32 {
    shift_n(crc ^ (byte as u32), 8)
}

/// The CRC register after all of `data`, starting from `crc`.
pub open spec fn register(crc: u32, data: Seq<u8>) -> u32
    decreases data.len(),
{
    if data.len() == 0 {
        crc
    } else {
        absorb(register(crc, data.drop_last()), data.last())
    }
}

/// The checksum of `data`, continuing a checksum `seed` (0 to start one).
pub open spec fn checksum(seed: u32, data: Seq<u8>) -> u32 {
    !register(!seed, data)
}

/// CRC-32 of `data`. Passing the checksum of an earlier part as `seed` continues it, and 0
/// starts a new one.
pub fn crc32(seed: u32, data: &[u8]) -> (crc: u32)
    ensures
        crc == checksum(seed, data@),
{
    let mut crc: u32 = !seed;
    let mut i: usize = 0;
    while i < data.len()
        invariant
            i <= data@.len(),
            crc == register(!seed, data@.take(i as int)),
        decreases data@.len() - i,
    {
        let ghost before = crc;
        let byte = data[i];
        crc = crc ^ (byte as u32);
        let mut bit: u32 = 0;
        while bit < 8
            invariant
                bit <= 8,
                crc == shift_n(before ^ (byte as u32), bit as nat),
            decreases 8 - bit,
        {
            let mask: u32 = 0u32.wrapping_sub(crc & 1);
            proof {
                lemma_masked_shift(crc, mask);
            }
            crc = (crc >> 1) ^ (POLYNOMIAL & mask);
            bit = bit + 1;
        }
        proof {
            assert(data@.take(i + 1).drop_last() =~= data@.take(i as int));
        }
        i = i + 1;
    }
    assert(data@.take(i as int) =~= data@);
    !crc
}

/// Selecting the polynomial with an all-ones or all-zeros mask is one register shift.
proof fn lemma_masked_shift(crc: u32, mask: u32)
    requires
        mask == 0u32.wrapping_sub(crc & 1),
    ensures
        (crc >> 1) ^ (POLYNOMIAL & mask) == shift(crc),
{
    assert(crc & 1 == 0 || crc & 1 == 1) by (bit_vector);
    let half = crc >> 1;
    if crc & 1 == 0 {
        assert(half ^ (0xEDB8_8320u32 & 0) == half) by (bit_vector);
    } else {
        assert(0xEDB8_8320u32 & 0xFFFF_FFFF == 0xEDB8_8320u32) by (bit_vector);
    }
}

/// A checksum continued over `b` after `a` is the checksum of `a` followed by `b`.
pub proof fn lemma_checksum_continues(seed: u32, a: Seq<u8>, b: Seq<u8>)
    ensures
        checksum(checksum(seed, a), b) == checksum(seed, a + b),
{
    let state = register(!seed, a);
    assert(!(!state) == state) by (bit_vector);
    lemma_register_splits(!seed, a, b);
}

/// Running the register over `a` and then over `b` is running it over both.
proof fn lemma_register_splits(crc: u32, a: Seq<u8>, b: Seq<u8>)
    ensures
        register(crc, a + b) == register(register(crc, a), b),
    decreases b.len(),
{
    if b.len() == 0 {
        assert(a + b =~= a);
    } else {
        lemma_register_splits(crc, a, b.drop_last());
        assert((a + b).drop_last() =~= a + b.drop_last());
    }
}

/// One register shift loses nothing.
proof fn lemma_shift_injective(x: u32, y: u32)
    requires
        shift(x) == shift(y),
    ensures
        x == y,
{
    assert({
        let a: u32 = if x & 1 == 1 { (x >> 1) ^ 0xEDB8_8320 } else { x >> 1 };
        let b: u32 = if y & 1 == 1 { (y >> 1) ^ 0xEDB8_8320 } else { y >> 1 };
        a == b ==> x == y
    }) by (bit_vector);
}

/// Any number of register shifts loses nothing.
proof fn lemma_shift_n_injective(x: u32, y: u32, n: nat)
    requires
        shift_n(x, n) == shift_n(y, n),
    ensures
        x == y,
    decreases n,
{
    if n > 0 {
        let m = (n - 1) as nat;
        lemma_shift_injective(shift_n(x, m), shift_n(y, m));
        lemma_shift_n_injective(x, y, m);
    }
}

/// Different registers stay different over the same message.
proof fn lemma_register_injective(x: u32, y: u32, data: Seq<u8>)
    requires
        register(x, data) == register(y, data),
    ensures
        x == y,
    decreases data.len(),
{
    if data.len() > 0 {
        let front = data.drop_last();
        let byte = data.last() as u32;
        let a = register(x, front);
        let b = register(y, front);
        lemma_shift_n_injective(a ^ byte, b ^ byte, 8);
        assert(a ^ byte == b ^ byte ==> a == b) by (bit_vector);
        lemma_register_injective(x, y, front);
    }
}

/// The register is linear over exclusive or.
proof fn lemma_shift_n_linear(x: u32, y: u32, n: nat)
    ensures
        shift_n(x ^ y, n) == shift_n(x, n) ^ shift_n(y, n),
    decreases n,
{
    if n > 0 {
        let m = (n - 1) as nat;
        lemma_shift_n_linear(x, y, m);
        let a = shift_n(x, m);
        let b = shift_n(y, m);
        assert({
            let sa: u32 = if a & 1 == 1 { (a >> 1) ^ 0xEDB8_8320 } else { a >> 1 };
            let sb: u32 = if b & 1 == 1 { (b >> 1) ^ 0xEDB8_8320 } else { b >> 1 };
            let c: u32 = a ^ b;
            let sc: u32 = if c & 1 == 1 { (c >> 1) ^ 0xEDB8_8320 } else { c >> 1 };
            sc == sa ^ sb
        }) by (bit_vector);
    }
}

/// Shifts add up.
proof fn lemma_shift_n_adds(x: u32, m: nat, n: nat)
    ensures
        shift_n(shift_n(x, m), n) == shift_n(x, m + n),
    decreases n,
{
    if n > 0 {
        lemma_shift_n_adds(x, m, (n - 1) as nat);
        assert((m + n - 1) as nat == m + (n - 1) as nat);
    }
}

/// A byte placed `n` bits up reaches the low end unchanged after `n` shifts.
proof fn lemma_byte_slides_down(byte: u32, n: u32)
    requires
        byte < 256,
        n <= 24,
    ensures
        shift_n(byte << n, n as nat) == byte,
    decreases n,
{
    if n == 0 {
        assert(byte << 0u32 == byte) by (bit_vector);
    } else {
        let m = (n - 1) as u32;
        let placed = byte << n;
        assert(placed & 1 == 0 && placed >> 1 == byte << m) by (bit_vector)
            requires
                byte < 256,
                1 <= n <= 24,
                placed == byte << n,
                m == n - 1,
        ;
        lemma_byte_slides_down(byte, m);
        assert(shift_n(placed, 1) == shift(placed)) by {
            reveal_with_fuel(shift_n, 2);
        }
        lemma_shift_n_adds(placed, 1, m as nat);
        assert(1 + m as nat == n as nat);
    }
}

/// Up to four message bytes as a little-endian word.
spec fn word(data: Seq<u8>) -> u32
    decreases data.len(),
{
    if data.len() == 0 {
        0
    } else {
        word(data.drop_last()) ^ ((data.last() as u32) << (8 * (data.len() - 1)) as u32)
    }
}

/// Absorbing up to four bytes is combining the word they form and shifting it through.
proof fn lemma_register_of_word(crc: u32, data: Seq<u8>)
    requires
        data.len() <= 4,
    ensures
        register(crc, data) == shift_n(crc ^ word(data), 8 * data.len()),
    decreases data.len(),
{
    if data.len() == 0 {
        assert(crc ^ 0 == crc) by (bit_vector);
    } else {
        let front = data.drop_last();
        let byte = data.last() as u32;
        let at = (8 * (data.len() - 1)) as u32;
        let placed = byte << at;
        let low = crc ^ word(front);
        lemma_register_of_word(crc, front);
        lemma_byte_slides_down(byte, at);
        lemma_shift_n_linear(low, placed, at as nat);
        lemma_shift_n_adds(low ^ placed, at as nat, 8);
        let w = word(front);
        assert((crc ^ w) ^ placed == crc ^ (w ^ placed)) by (bit_vector);
    }
}

/// The word holds each of its bytes.
proof fn lemma_word_injective(a: Seq<u8>, b: Seq<u8>)
    requires
        a.len() == b.len() <= 4,
        word(a) == word(b),
    ensures
        a == b,
{
    reveal_with_fuel(word, 5);
    let n = a.len();
    let a0 = if n > 0 { a[0] } else { 0 };
    let a1 = if n > 1 { a[1] } else { 0 };
    let a2 = if n > 2 { a[2] } else { 0 };
    let a3 = if n > 3 { a[3] } else { 0 };
    let b0 = if n > 0 { b[0] } else { 0 };
    let b1 = if n > 1 { b[1] } else { 0 };
    let b2 = if n > 2 { b[2] } else { 0 };
    let b3 = if n > 3 { b[3] } else { 0 };
    let wa: u32 = (((0u32 ^ ((a0 as u32) << 0u32)) ^ ((a1 as u32) << 8u32)) ^ ((a2 as u32) << 16u32))
        ^ ((a3 as u32) << 24u32);
    let wb: u32 = (((0u32 ^ ((b0 as u32) << 0u32)) ^ ((b1 as u32) << 8u32)) ^ ((b2 as u32) << 16u32))
        ^ ((b3 as u32) << 24u32);
    assert(forall|v: u32| #![auto] v ^ (0u32 << 0u32) == v && v ^ (0u32 << 8u32) == v && v ^ (0u32
        << 16u32) == v && v ^ (0u32 << 24u32) == v) by (bit_vector);
    assert(word(a) == wa);
    assert(word(b) == wb);
    assert(wa == wb ==> a0 == b0 && a1 == b1 && a2 == b2 && a3 == b3) by (bit_vector)
        requires
            wa == (((0u32 ^ ((a0 as u32) << 0u32)) ^ ((a1 as u32) << 8u32)) ^ ((a2 as u32)
                << 16u32)) ^ ((a3 as u32) << 24u32),
            wb == (((0u32 ^ ((b0 as u32) << 0u32)) ^ ((b1 as u32) << 8u32)) ^ ((b2 as u32)
                << 16u32)) ^ ((b3 as u32) << 24u32),
    ;
    assert(a =~= b);
}

/// Two messages of one length that differ, but only within four consecutive bytes, never have
/// the same checksum.
pub proof fn lemma_burst_detected(seed: u32, a: Seq<u8>, b: Seq<u8>, at: int, len: int)
    requires
        a.len() == b.len(),
        a != b,
        0 <= at,
        0 <= len <= 4,
        at + len <= a.len(),
        forall|i: int| 0 <= i < a.len() && !(at <= i < at + len) ==> a[i] == b[i],
    ensures
        checksum(seed, a) != checksum(seed, b),
{
    let head = a.take(at);
    let wa = a.subrange(at, at + len);
    let wb = b.subrange(at, at + len);
    let tail = a.skip(at + len);
    assert(a =~= head + wa + tail);
    assert(b =~= head + wb + tail);
    let start = register(!seed, head);
    lemma_register_splits(!seed, head + wa, tail);
    lemma_register_splits(!seed, head, wa);
    lemma_register_splits(!seed, head + wb, tail);
    lemma_register_splits(!seed, head, wb);
    if checksum(seed, a) == checksum(seed, b) {
        let ra = register(!seed, a);
        let rb = register(!seed, b);
        assert(!ra == !rb ==> ra == rb) by (bit_vector);
        lemma_register_injective(register(start, wa), register(start, wb), tail);
        lemma_register_of_word(start, wa);
        lemma_register_of_word(start, wb);
        lemma_shift_n_injective(start ^ word(wa), start ^ word(wb), 8 * wa.len());
        let x = word(wa);
        let y = word(wb);
        assert(start ^ x == start ^ y ==> x == y) by (bit_vector);
        lemma_word_injective(wa, wb);
    }
}

/// What eight shifts make of a low byte: the exclusive or of one constant for each of its bits.
pub open spec fn table_entry(index: u32) -> u32 {
    (if index & 0x01 != 0 { 0x7707_3096u32 } else { 0 })
    ^ (if index & 0x02 != 0 { 0xEE0E_612Cu32 } else { 0 })
    ^ (if index & 0x04 != 0 { 0x076D_C419u32 } else { 0 })
    ^ (if index & 0x08 != 0 { 0x0EDB_8832u32 } else { 0 })
    ^ (if index & 0x10 != 0 { 0x1DB7_1064u32 } else { 0 })
    ^ (if index & 0x20 != 0 { 0x3B6E_20C8u32 } else { 0 })
    ^ (if index & 0x40 != 0 { 0x76DC_4190u32 } else { 0 })
    ^ (if index & 0x80 != 0 { 0xEDB8_8320u32 } else { 0 })
}

/// Eight shifts drop the low byte and add its table entry.
proof fn lemma_shift_byte(r: u32)
    ensures
        shift_n(r, 8) == (r >> 8) ^ table_entry(r & 0xFF),
{
    reveal_with_fuel(shift_n, 9);
    assert({
        let a: u32 = if r & 1 == 1 { (r >> 1) ^ 0xEDB8_8320 } else { r >> 1 };
        let b: u32 = if a & 1 == 1 { (a >> 1) ^ 0xEDB8_8320 } else { a >> 1 };
        let c: u32 = if b & 1 == 1 { (b >> 1) ^ 0xEDB8_8320 } else { b >> 1 };
        let d: u32 = if c & 1 == 1 { (c >> 1) ^ 0xEDB8_8320 } else { c >> 1 };
        let e: u32 = if d & 1 == 1 { (d >> 1) ^ 0xEDB8_8320 } else { d >> 1 };
        let f: u32 = if e & 1 == 1 { (e >> 1) ^ 0xEDB8_8320 } else { e >> 1 };
        let g: u32 = if f & 1 == 1 { (f >> 1) ^ 0xEDB8_8320 } else { f >> 1 };
        let h: u32 = if g & 1 == 1 { (g >> 1) ^ 0xEDB8_8320 } else { g >> 1 };
        h == (r >> 8) ^ table_entry(r & 0xFF)
    }) by (bit_vector);
}

/// The checksum of nothing is the seed.
pub proof fn lemma_checksum_of_nothing(seed: u32)
    ensures
        checksum(seed, Seq::empty()) == seed,
{
    assert(!(!seed) == seed) by (bit_vector);
}

/// One more byte drops the low byte of the checksum and adds the table entry of that byte and
/// the new one. With the checksum of nothing this fixes the checksum of every message.
pub proof fn lemma_checksum_takes_byte(seed: u32, data: Seq<u8>, byte: u8)
    ensures
        ({
            let sum = checksum(seed, data);
            checksum(seed, data.push(byte)) == 0xFF00_0000u32 ^ (sum >> 8) ^ table_entry(
                (sum ^ (byte as u32) ^ 0xFF) & 0xFF,
            )
        }),
{
    let r = register(!seed, data);
    assert(data.push(byte).drop_last() =~= data);
    lemma_shift_byte(r ^ (byte as u32));
    assert({
        let sum: u32 = !r;
        let x: u32 = r ^ (byte as u32);
        !((x >> 8) ^ table_entry(x & 0xFF)) == 0xFF00_0000u32 ^ (sum >> 8) ^ table_entry(
            (sum ^ (byte as u32) ^ 0xFF) & 0xFF,
        )
    }) by (bit_vector);
}

/// The register is affine in the message.
proof fn lemma_register_affine(crc: u32, a: Seq<u8>, b: Seq<u8>, c: Seq<u8>, m: Seq<u8>)
    requires
        a.len() == b.len() == c.len() == m.len(),
        forall|i: int| 0 <= i < m.len() ==> #[trigger] m[i] == a[i] ^ b[i] ^ c[i],
    ensures
        register(crc, m) == register(crc, a) ^ register(crc, b) ^ register(crc, c),
    decreases m.len(),
{
    if m.len() == 0 {
        assert(crc ^ crc ^ crc == crc) by (bit_vector);
    } else {
        let n = m.len() - 1;
        assert forall|i: int| 0 <= i < n implies #[trigger] m.drop_last()[i] == a.drop_last()[i]
            ^ b.drop_last()[i] ^ c.drop_last()[i] by {
            assert(m[i] == a[i] ^ b[i] ^ c[i]);
        }
        lemma_register_affine(crc, a.drop_last(), b.drop_last(), c.drop_last(), m.drop_last());
        let (ra, rb, rc) = (
            register(crc, a.drop_last()),
            register(crc, b.drop_last()),
            register(crc, c.drop_last()),
        );
        let (x, y, z, w) = (a[n], b[n], c[n], m[n]);
        let xa = ra ^ (x as u32);
        let xb = rb ^ (y as u32);
        let xc = rc ^ (z as u32);
        assert(w == x ^ y ^ z);
        assert((ra ^ rb ^ rc) ^ ((x ^ y ^ z) as u32) == (ra ^ (x as u32)) ^ (rb ^ (y as u32)) ^ (rc
            ^ (z as u32))) by (bit_vector);
        lemma_shift_n_linear(xa ^ xb, xc, 8);
        lemma_shift_n_linear(xa, xb, 8);
    }
}

/// The checksum of the bytewise exclusive or of three messages of one length is the exclusive
/// or of their checksums.
pub proof fn lemma_checksum_affine(seed: u32, a: Seq<u8>, b: Seq<u8>, c: Seq<u8>, m: Seq<u8>)
    requires
        a.len() == b.len() == c.len() == m.len(),
        forall|i: int| 0 <= i < m.len() ==> #[trigger] m[i] == a[i] ^ b[i] ^ c[i],
    ensures
        checksum(seed, m) == checksum(seed, a) ^ checksum(seed, b) ^ checksum(seed, c),
{
    lemma_register_affine(!seed, a, b, c, m);
    let (ra, rb, rc) = (register(!seed, a), register(!seed, b), register(!seed, c));
    assert(!(ra ^ rb ^ rc) == !ra ^ !rb ^ !rc) by (bit_vector);
}

/// A message followed by four bytes has the checksum `0x2144_DF1C` exactly if those bytes are
/// its own checksum, lowest first.
pub proof fn lemma_checksum_residue(seed: u32, data: Seq<u8>, tail: Seq<u8>)
    requires
        tail.len() == 4,
    ensures
        checksum(seed, data + tail) == 0x2144_DF1C <==> tail[0] + 256 * tail[1] + 65536 * tail[2]
            + 16777216 * tail[3] == checksum(seed, data),
{
    let r = register(!seed, data);
    let w = word(tail);
    let (t0, t1, t2, t3) = (tail[0], tail[1], tail[2], tail[3]);
    lemma_register_splits(!seed, data, tail);
    lemma_register_of_word(r, tail);
    assert(w == (((0u32 ^ ((t0 as u32) << 0u32)) ^ ((t1 as u32) << 8u32)) ^ ((t2 as u32) << 16u32))
        ^ ((t3 as u32) << 24u32)) by {
        reveal_with_fuel(word, 5);
    }
    assert(w == t0 + 256 * t1 + 65536 * t2 + 16777216 * t3) by (bit_vector)
        requires
            w == (((0u32 ^ ((t0 as u32) << 0u32)) ^ ((t1 as u32) << 8u32)) ^ ((t2 as u32)
                << 16u32)) ^ ((t3 as u32) << 24u32),
    ;
    assert((r ^ w == 0xFFFF_FFFF) == (w == !r)) by (bit_vector);
    lemma_all_ones_shifted();
    let end = shift_n(r ^ w, 32);
    assert((!end == 0x2144_DF1C) == (end == 0xDEBB_20E3)) by (bit_vector);
    if end == 0xDEBB_20E3 {
        lemma_shift_n_injective(r ^ w, 0xFFFF_FFFF, 32);
    }
}

/// The register of all ones after four zero bytes.
proof fn lemma_all_ones_shifted()
    ensures
        shift_n(0xFFFF_FFFF, 32) == 0xDEBB_20E3,
{
    let x: u32 = 0xFFFF_FFFF;
    let a = shift_n(x, 8);
    let b = shift_n(a, 8);
    let c = shift_n(b, 8);
    lemma_shift_byte(x);
    lemma_shift_byte(a);
    lemma_shift_byte(b);
    lemma_shift_byte(c);
    lemma_shift_n_adds(x, 8, 8);
    lemma_shift_n_adds(x, 16, 8);
    lemma_shift_n_adds(x, 24, 8);
    assert((c >> 8) ^ table_entry(c & 0xFF) == 0xDEBB_20E3) by (bit_vector)
        requires
            x == 0xFFFF_FFFFu32,
            a == (x >> 8) ^ table_entry(x & 0xFF),
            b == (a >> 8) ^ table_entry(a & 0xFF),
            c == (b >> 8) ^ table_entry(b & 0xFF),
    ;
}

} // verus!
