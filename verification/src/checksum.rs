//! The two checksums of a PNG file: CRC-32 over each chunk, Adler-32 over the image data.
use vstd::prelude::*;
use crate::bytes::le32;

verus! {

/// One step of the CRC-32 register: the lowest bit is shifted out, and where it was set the
/// (reflected) polynomial is subtracted.
pub open spec fn crc_step(c: u32) -> u32 {
    if c & 1 != 0 {
        (c >> 1) ^ 0xEDB8_8320
    } else {
        c >> 1
    }
}

/// The CRC-32 register after `n` bits.
pub open spec fn crc_steps(c: u32, n: nat) -> u32
    decreases n,
{
    if n == 0 {
        c
    } else {
        crc_step(crc_steps(c, (n - 1) as nat))
    }
}

/// The CRC-32 register after the bytes of `s`, starting from all ones.
pub open spec fn crc_register(s: Seq<u8>) -> u32
    decreases s.len(),
{
    if s.len() == 0 {
        0xFFFF_FFFF
    } else {
        crc_steps(crc_register(s.drop_last()) ^ (s.last() as u32), 8)
    }
}

/// The CRC-32 of `s`: the register, complemented.
pub open spec fn crc32_of(s: Seq<u8>) -> u32 {
    !crc_register(s)
}

/// The CRC-32 of `buf`.
pub fn crc32(buf: &[u8]) -> (crc: u32)
    ensures
        crc == crc32_of(buf@),
{
    let mut c: u32 = 0xFFFF_FFFF;
    let mut i: usize = 0;
    while i < buf.len()
        invariant
            i <= buf@.len(),
            c == crc_register(buf@.take(i as int)),
        decreases buf@.len() - i,
    {
        let ghost start = c ^ (buf@[i as int] as u32);
        c = c ^ (buf[i] as u32);
        let mut k: u32 = 0;
        while k < 8
            invariant
                k <= 8,
                c == crc_steps(start, k as nat),
            decreases 8 - k,
        {
            c = if c & 1 != 0 {
                (c >> 1) ^ 0xEDB8_8320
            } else {
                c >> 1
            };
            k += 1;
        }
        proof {
            let more = buf@.take(i + 1);
            assert(more.drop_last() =~= buf@.take(i as int));
        }
        i += 1;
    }
    assert(buf@.take(i as int) =~= buf@);
    !c
}

/// The bytewise exclusive or of three texts of one length.
pub open spec fn xor3(a: Seq<u8>, b: Seq<u8>, c: Seq<u8>) -> Seq<u8> {
    Seq::new(a.len(), |i: int| a[i] ^ b[i] ^ c[i])
}

proof fn lemma_step_xor(x: u32, y: u32)
    by (bit_vector)
    ensures
        crc_step(x ^ y) == crc_step(x) ^ crc_step(y),
{
}

proof fn lemma_steps_xor(x: u32, y: u32, n: nat)
    ensures
        crc_steps(x ^ y, n) == crc_steps(x, n) ^ crc_steps(y, n),
    decreases n,
{
    if n > 0 {
        let m = (n - 1) as nat;
        lemma_steps_xor(x, y, m);
        lemma_step_xor(crc_steps(x, m), crc_steps(y, m));
    }
}

proof fn lemma_register_xor(a: Seq<u8>, b: Seq<u8>, c: Seq<u8>)
    requires
        a.len() == b.len(),
        b.len() == c.len(),
    ensures
        crc_register(xor3(a, b, c)) == crc_register(a) ^ crc_register(b) ^ crc_register(c),
    decreases a.len(),
{
    if a.len() == 0 {
        assert(0xFFFF_FFFFu32 ^ 0xFFFF_FFFFu32 ^ 0xFFFF_FFFFu32 == 0xFFFF_FFFFu32) by (bit_vector);
    } else {
        let all = xor3(a, b, c);
        assert(all.drop_last() =~= xor3(a.drop_last(), b.drop_last(), c.drop_last()));
        lemma_register_xor(a.drop_last(), b.drop_last(), c.drop_last());
        let (p, q, r) = (
            crc_register(a.drop_last()),
            crc_register(b.drop_last()),
            crc_register(c.drop_last()),
        );
        let (x, y, z) = (a.last(), b.last(), c.last());
        assert(all.last() == x ^ y ^ z);
        assert((p ^ q ^ r) ^ ((x ^ y ^ z) as u32) == ((p ^ (x as u32)) ^ (q ^ (y as u32))) ^ (r ^ (
        z as u32))) by (bit_vector);
        lemma_steps_xor((p ^ (x as u32)) ^ (q ^ (y as u32)), r ^ (z as u32), 8);
        lemma_steps_xor(p ^ (x as u32), q ^ (y as u32), 8);
    }
}

/// CRCs of texts of one length combine by exclusive or.
pub proof fn law_crc_of_xor(a: Seq<u8>, b: Seq<u8>, c: Seq<u8>)
    requires
        a.len() == b.len(),
        b.len() == c.len(),
    ensures
        crc32_of(xor3(a, b, c)) == crc32_of(a) ^ crc32_of(b) ^ crc32_of(c),
{
    lemma_register_xor(a, b, c);
    let (p, q, r) = (crc_register(a), crc_register(b), crc_register(c));
    assert(!(p ^ q ^ r) == !p ^ !q ^ !r) by (bit_vector);
}

/// Eight steps of the register: a low byte of zeros is shifted out, and what becomes of all ones
/// over four bytes of zeros.
proof fn lemma_eight_bits(
    c0: u32,
    c1: u32,
    c2: u32,
    c3: u32,
    c4: u32,
    c5: u32,
    c6: u32,
    c7: u32,
    c8: u32,
)
    by (bit_vector)
    requires
        c1 == crc_step(c0),
        c2 == crc_step(c1),
        c3 == crc_step(c2),
        c4 == crc_step(c3),
        c5 == crc_step(c4),
        c6 == crc_step(c5),
        c7 == crc_step(c6),
        c8 == crc_step(c7),
    ensures
        c0 & 0xFF == 0 ==> c8 == c0 >> 8,
        c0 == 0xFFFF_FFFF ==> c8 == 0x2DFD_1072,
        c0 == 0x2DFD_1072 ==> c8 == 0xBE26_ED00,
        c0 == 0xBE26_ED00 ==> c8 == 0x00BE_26ED,
        c0 == 0x00BE_26ED ==> c8 == 0xDEBB_20E3,
{
}

proof fn lemma_byte(c: u32)
    ensures
        c & 0xFF == 0 ==> crc_steps(c, 8) == c >> 8,
        c == 0xFFFF_FFFF ==> crc_steps(c, 8) == 0x2DFD_1072,
        c == 0x2DFD_1072 ==> crc_steps(c, 8) == 0xBE26_ED00,
        c == 0xBE26_ED00 ==> crc_steps(c, 8) == 0x00BE_26ED,
        c == 0x00BE_26ED ==> crc_steps(c, 8) == 0xDEBB_20E3,
{
    reveal_with_fuel(crc_steps, 9);
    lemma_eight_bits(
        c,
        crc_steps(c, 1),
        crc_steps(c, 2),
        crc_steps(c, 3),
        crc_steps(c, 4),
        crc_steps(c, 5),
        crc_steps(c, 6),
        crc_steps(c, 7),
        crc_steps(c, 8),
    );
}

/// A byte that meets the register after its low byte was shifted out might as well have stood
/// above that byte from the start.
proof fn lemma_byte_later(c: u32, b: u32)
    requires
        b < 0x100_0000,
    ensures
        crc_steps(c, 8) ^ b == crc_steps(c ^ (b << 8), 8),
{
    assert((b << 8) & 0xFF == 0 && (b << 8) >> 8 == b) by (bit_vector)
        requires
            b < 0x100_0000,
    ;
    lemma_byte(b << 8);
    lemma_steps_xor(c, b << 8, 8);
}

/// Four bytes at once: the register meets all of them, the first lowest, and then shifts them out.
proof fn lemma_four_bytes(c: u32, b0: u32, b1: u32, b2: u32, b3: u32)
    requires
        b1 < 0x100,
        b2 < 0x100,
        b3 < 0x100,
    ensures
        ({
            let all = c ^ b0 ^ (b1 << 8) ^ (b2 << 16) ^ (b3 << 24);
            let one = crc_steps(c ^ b0, 8);
            let two = crc_steps(one ^ b1, 8);
            let three = crc_steps(two ^ b2, 8);
            crc_steps(three ^ b3, 8) == crc_steps(crc_steps(crc_steps(crc_steps(all, 8), 8), 8), 8)
        }),
{
    assert(b2 << 8 < 0x1_0000 && (b2 << 8) << 8 == b2 << 16 && b3 << 8 < 0x1_0000 && b3 << 16
        < 0x100_0000 && (b3 << 8) << 8 == b3 << 16 && (b3 << 16) << 8 == b3 << 24) by (bit_vector)
        requires
            b2 < 0x100,
            b3 < 0x100,
    ;
    let x1 = c ^ b0 ^ (b1 << 8);
    let x2 = x1 ^ (b2 << 16);
    let x3 = x2 ^ (b3 << 24);
    lemma_byte_later(c ^ b0, b1);
    lemma_byte_later(crc_steps(x1, 8), b2);
    lemma_byte_later(x1, b2 << 8);
    lemma_byte_later(crc_steps(crc_steps(x2, 8), 8), b3);
    lemma_byte_later(crc_steps(x2, 8), b3 << 8);
    lemma_byte_later(x2, b3 << 16);
}

/// The residue: a text followed by its own CRC, least significant byte first, has the same CRC
/// whatever the text.
pub proof fn law_crc_residue(m: Seq<u8>)
    ensures
        crc32_of(m + le32(crc32_of(m))) == 0x2144_DF1C,
{
    let r = crc_register(m);
    let crc = crc32_of(m);
    reveal(le32);
    let w = le32(crc);
    let m1 = m.push(w[0]);
    let m2 = m1.push(w[1]);
    let m3 = m2.push(w[2]);
    let m4 = m3.push(w[3]);
    assert(m + w =~= m4);
    assert(m1.drop_last() =~= m && m2.drop_last() =~= m1 && m3.drop_last() =~= m2 && m4.drop_last()
        =~= m3);
    let (b0, b1, b2, b3) = (crc % 256, crc / 256 % 256, crc / 65536 % 256, crc / 16777216);
    assert(r ^ b0 ^ (b1 << 8) ^ (b2 << 16) ^ (b3 << 24) == 0xFFFF_FFFF) by (bit_vector)
        requires
            crc == !r,
            b0 == crc % 256,
            b1 == crc / 256 % 256,
            b2 == crc / 65536 % 256,
            b3 == crc / 16777216,
    ;
    assert(crc_register(m1) == crc_steps(r ^ b0, 8));
    assert(crc_register(m2) == crc_steps(crc_register(m1) ^ b1, 8));
    assert(crc_register(m3) == crc_steps(crc_register(m2) ^ b2, 8));
    assert(crc_register(m4) == crc_steps(crc_register(m3) ^ b3, 8));
    lemma_four_bytes(r, b0, b1, b2, b3);
    lemma_byte(0xFFFF_FFFF);
    lemma_byte(0x2DFD_1072);
    lemma_byte(0xBE26_ED00);
    lemma_byte(0x00BE_26ED);
    assert(crc_register(m4) == 0xDEBB_20E3);
    assert(!0xDEBB_20E3u32 == 0x2144_DF1C) by (bit_vector);
}

/// The modulus of Adler-32.
pub const ADLER_MODULUS: u32 = 65521;

/// One more than the sum of the bytes.
pub open spec fn byte_sum(s: Seq<u8>) -> nat
    decreases s.len(),
{
    if s.len() == 0 {
        1
    } else {
        byte_sum(s.drop_last()) + s.last() as nat
    }
}

/// The sum of [`byte_sum`] over all non-empty prefixes.
pub open spec fn prefix_sum(s: Seq<u8>) -> nat
    decreases s.len(),
{
    if s.len() == 0 {
        0
    } else {
        prefix_sum(s.drop_last()) + byte_sum(s)
    }
}

/// The Adler-32 of `s`: the two sums, each modulo 65521, the second in the high half.
pub open spec fn adler32_of(s: Seq<u8>) -> u32 {
    ((prefix_sum(s) % 65521) * 65536 + byte_sum(s) % 65521) as u32
}

/// The Adler-32 of `buf`.
pub fn adler32(buf: &[u8]) -> (sum: u32)
    ensures
        sum == adler32_of(buf@),
{
    let mut a: u32 = 1;
    let mut b: u32 = 0;
    let mut i: usize = 0;
    while i < buf.len()
        invariant
            i <= buf@.len(),
            a < ADLER_MODULUS,
            b < ADLER_MODULUS,
            a == byte_sum(buf@.take(i as int)) % 65521,
            b == prefix_sum(buf@.take(i as int)) % 65521,
        decreases buf@.len() - i,
    {
        let ghost x = buf@[i as int] as nat;
        let ghost more = buf@.take(i + 1);
        proof {
            assert(more.drop_last() =~= buf@.take(i as int));
            let a0 = byte_sum(buf@.take(i as int));
            let b0 = prefix_sum(buf@.take(i as int));
            assert((a0 % 65521 + x) % 65521 == (a0 + x) % 65521);
            let a1 = a0 + x;
            assert((b0 % 65521 + a1 % 65521) % 65521 == (b0 + a1) % 65521);
        }
        a = (a + buf[i] as u32) % ADLER_MODULUS;
        b = (b + a) % ADLER_MODULUS;
        i += 1;
    }
    assert(buf@.take(i as int) =~= buf@);
    b * 65536 + a
}

} // verus!
