//! What a picture is on disk, byte by byte, and what its checksums are.
use vstd::prelude::*;
use crate::checksum::{
    adler32, adler32_of, byte_sum, crc32, crc32_of, crc_register, crc_step, crc_steps, prefix_sum,
};
use crate::png::{
    be32, block_bytes, block_len, chunk_bytes, header_bytes, idat, iend, ihdr, png_chunk,
    png_signature, scanlines, stored_from, write_png_rgb, zlib_bytes,
};
use crate::wire_laws::bytes_at;

verus! {

/// Whether these numbers follow from one another by one bit of CRC-32: each is half of the one
/// before, and where that was odd the polynomial is taken off.
pub open spec fn are_bits(s: Seq<u32>) -> bool {
    forall|i: int|
        0 <= i < s.len() - 1 ==> #[trigger] s[i + 1] == (if s[i] % 2 == 1 {
            (s[i] / 2) ^ 0xEDB8_8320
        } else {
            s[i] / 2
        })
}

proof fn lemma_bit(x: u32)
    by (bit_vector)
    ensures
        crc_step(x) == (if x % 2 == 1 {
            (x / 2) ^ 0xEDB8_8320
        } else {
            x / 2
        }),
{
}

proof fn lemma_bits(s: Seq<u32>, i: int)
    requires
        are_bits(s),
        0 <= i < s.len(),
    ensures
        crc_steps(s[0], i as nat) == s[i],
    decreases i,
{
    if i > 0 {
        lemma_bits(s, i - 1);
        lemma_bit(s[i - 1]);
        assert(s[i - 1 + 1] == s[i]);
    }
}

/// The CRC of nothing is 0, and a byte more takes eight bits more: from the complement of the CRC so
/// far, met with the byte, to the complement of the new one.
pub proof fn law_crc_byte_by_byte(few: &[u8], more: &[u8], b: u8, c: u32, d: u32, bits: Seq<u32>)
    requires
        call_ensures(crc32, (few,), c),
        call_ensures(crc32, (more,), d),
        more@ == few@.push(b),
        bits.len() == 9,
        bits[0] == !c ^ (b as u32),
        are_bits(bits),
    ensures
        few@.len() == 0 ==> c == 0,
        d == !bits[8],
{
    assert(!0xFFFF_FFFFu32 == 0) by (bit_vector);
    let r = crc_register(few@);
    assert(!!r == r) by (bit_vector);
    assert(more@.drop_last() =~= few@);
    lemma_bits(bits, 8);
}

/// The Adler-32 of nothing is 1. A byte more is added to the low half, and then the low half to the
/// high one, each modulo 65521.
pub proof fn law_adler_byte_by_byte(few: &[u8], more: &[u8], b: u8, c: u32, d: u32)
    requires
        call_ensures(adler32, (few,), c),
        call_ensures(adler32, (more,), d),
        more@ == few@.push(b),
    ensures
        few@.len() == 0 ==> c == 1,
        d % 65536 == (c % 65536 + b) % 65521,
        d / 65536 == (c / 65536 + d % 65536) % 65521,
{
    assert(more@.drop_last() =~= few@);
    let (a, p) = (byte_sum(few@), prefix_sum(few@));
    assert((p % 65521) * 65536 + a % 65521 <= u32::MAX);
    assert(c % 65536 == a % 65521 && c / 65536 == p % 65521);
    let (a1, p1) = (byte_sum(more@), prefix_sum(more@));
    assert(a1 == a + b && p1 == p + a1);
    assert((p1 % 65521) * 65536 + a1 % 65521 <= u32::MAX);
    assert(d % 65536 == a1 % 65521 && d / 65536 == p1 % 65521);
    assert((a % 65521 + b) % 65521 == (a + b) % 65521);
    assert((p % 65521 + a1 % 65521) % 65521 == (p + a1) % 65521);
}

/// Whether the number `x` stands at `at`, in four bytes, the most significant first.
pub open spec fn large_first_at(b: Seq<u8>, at: int, x: int) -> bool {
    &&& 0 <= at <= b.len() - 4
    &&& x == 16777216 * b[at] + 65536 * b[at + 1] + 256 * b[at + 2] + b[at + 3]
}

proof fn lemma_large_first(x: u32)
    ensures
        be32(x).len() == 4,
        x == 16777216 * be32(x)[0] + 65536 * be32(x)[1] + 256 * be32(x)[2] + be32(x)[3],
{
    reveal(be32);
}

/// Whether a chunk stands at `at`: the length of its data, four letters, the data, and the CRC of
/// letters and data.
#[verifier::opaque]
pub open spec fn chunk_at(b: Seq<u8>, at: int, typ: Seq<u8>, data: Seq<u8>) -> bool {
    &&& large_first_at(b, at, data.len() as int)
    &&& bytes_at(b, at + 4, typ)
    &&& bytes_at(b, at + 8, data)
    &&& large_first_at(b, at + 8 + data.len(), crc32_of(typ + data) as int)
}

proof fn lemma_chunk_within(before: Seq<u8>, typ: Seq<u8>, data: Seq<u8>, after: Seq<u8>)
    requires
        typ.len() == 4,
        data.len() <= u32::MAX,
    ensures
        chunk_at(before + chunk_bytes(typ, data) + after, before.len() as int, typ, data),
        chunk_bytes(typ, data).len() == 12 + data.len(),
{
    reveal(chunk_at);
    let n = data.len() as u32;
    let crc = crc32_of(typ + data);
    lemma_large_first(n);
    lemma_large_first(crc);
    let c = chunk_bytes(typ, data);
    let b = before + c + after;
    let at = before.len() as int;
    let (x, y) = (be32(n), be32(crc));
    assert(c == x + typ + data + y);
    let head = x + typ;
    assert(c[0] == x[0] && c[1] == x[1] && c[2] == x[2] && c[3] == x[3]);
    let end = 8 + data.len() as int;
    assert(c[end] == y[0] && c[end + 1] == y[1] && c[end + 2] == y[2] && c[end + 3] == y[3]);
    assert(b[at] == c[0] && b[at + 1] == c[1] && b[at + 2] == c[2] && b[at + 3] == c[3]);
    assert(b[at + end] == c[end] && b[at + end + 1] == c[end + 1] && b[at + end + 2] == c[end + 2]
        && b[at + end + 3] == c[end + 3]);
    assert forall|i: int| 0 <= i < typ.len() implies b[at + 4 + i] == #[trigger] typ[i] by {
        assert(c[4 + i] == typ[i]);
    }
    assert forall|i: int| 0 <= i < data.len() implies b[at + 8 + i] == #[trigger] data[i] by {
        assert(c[8 + i] == data[i]);
    }
}

/// A chunk is written behind what was there.
pub proof fn law_chunk_is_written(out: &mut Vec<u8>, typ: &[u8; 4], data: &[u8])
    requires
        call_ensures(png_chunk, (out, typ, data), ()),
        data@.len() < 0x1_0000_0000,
    ensures
        final(out)@.len() == old(out)@.len() + 12 + data@.len(),
        bytes_at(final(out)@, 0, old(out)@),
        chunk_at(final(out)@, old(out)@.len() as int, typ@, data@),
{
    lemma_chunk_within(old(out)@, typ@, data@, seq![]);
    assert(old(out)@ + chunk_bytes(typ@, data@) + seq![] =~= final(out)@);
}

/// Whether these are the rows of a picture: each a zero, and then three bytes a pixel.
pub open spec fn are_rows(raw: Seq<u8>, w: int, h: int, rgb: Seq<u8>) -> bool {
    &&& raw.len() == h * (1 + w * 3)
    &&& forall|y: int| 0 <= y < h ==> #[trigger] is_row(raw, w, y, rgb)
}

/// Whether the row numbered `y` stands behind those before it.
pub open spec fn is_row(raw: Seq<u8>, w: int, y: int, rgb: Seq<u8>) -> bool {
    let at = y * (1 + w * 3);
    let from = y * (w * 3);
    &&& raw[at] == 0
    &&& forall|x: int| 0 <= x < w * 3 ==> (#[trigger] raw[at + 1 + x]) == rgb[from + x]
}

proof fn lemma_rows_are(raw: Seq<u8>, w: nat, h: nat, rgb: Seq<u8>)
    requires
        are_rows(raw, w as int, h as int, rgb),
        h * (w * 3) <= rgb.len(),
    ensures
        raw == scanlines(w, h, rgb),
    decreases h,
{
    let row = 1 + w * 3;
    if h == 0 {
        assert(raw.len() == 0) by (nonlinear_arith)
            requires
                raw.len() == 0 * row,
        ;
        assert(raw =~= scanlines(w, h, rgb));
    } else {
        let y = (h - 1) as nat;
        let start = y * row;
        let from = y * (w * 3);
        assert(h * row == start + row && h * (w * 3) == from + w * 3 && start >= 0 && from >= 0)
            by (nonlinear_arith)
            requires
                h == y + 1,
                start == y * row,
                from == y * (w * 3),
                row >= 0,
                w >= 0,
                y >= 0,
        ;
        let fewer = raw.take(start as int);
        assert forall|k: int| 0 <= k < y implies #[trigger] is_row(fewer, w as int, k, rgb) by {
            let at = k * (1 + w * 3);
            assert(is_row(raw, w as int, k, rgb));
            assert(0 <= at && at + row <= start) by (nonlinear_arith)
                requires
                    at == k * row,
                    start == y * row,
                    0 <= k < y,
                    row >= 1,
            ;
            assert forall|x: int| 0 <= x < w * 3 implies (#[trigger] fewer[at + 1 + x]) == rgb[k * (w
                * 3) + x] by {
                assert(raw[at + 1 + x] == rgb[k * (w * 3) + x]);
            }
        }
        lemma_rows_are(fewer, w, y, rgb);
        assert(y < h);
        assert(is_row(raw, w as int, y as int, rgb));
        let pixels = rgb.subrange(from as int, (h * (w * 3)) as int);
        assert(raw =~= fewer + seq![0u8] + pixels) by {
            assert forall|i: int| 0 <= i < raw.len() implies raw[i] == (fewer + seq![0u8] + pixels)[i] by {
                if i > start {
                    let x = i - start - 1;
                    assert(raw[start + 1 + x] == rgb[from + x]);
                }
            }
        }
    }
}

/// Whether the stored block numbered `k` of a stream stands where it belongs: all blocks before it are
/// full. It says whether it is the last, gives its length and the complement of that, and then its
/// bytes.
#[verifier::opaque]
pub open spec fn block_at(b: Seq<u8>, first: int, raw: Seq<u8>, k: int) -> bool {
    let at = first + 65540 * k;
    let from = 65535 * k;
    let n = if raw.len() - from <= 65535 {
        raw.len() - from
    } else {
        65535
    };
    &&& 0 <= at <= b.len() - 5 - n
    &&& b[at] == (if from + n == raw.len() {
        1u8
    } else {
        0
    })
    &&& b[at + 1] + 256 * b[at + 2] == n
    &&& b[at + 3] + 256 * b[at + 4] == 65535 - n
    &&& forall|i: int| 0 <= i < n ==> (#[trigger] b[at + 5 + i]) == raw[from + i]
}

proof fn lemma_block_bytes(raw: Seq<u8>, i: int)
    requires
        0 <= i < raw.len(),
    ensures
        ({
            let n = block_len(raw, i);
            let c = block_bytes(raw, i);
            &&& 0 < n <= 65535
            &&& c.len() == 5 + n
            &&& c[0] == (if i + n == raw.len() {
                1u8
            } else {
                0
            })
            &&& c[1] + 256 * c[2] == n
            &&& c[3] + 256 * c[4] == 65535 - n
            &&& forall|j: int| 0 <= j < n ==> (#[trigger] c[5 + j]) == raw[i + j]
        }),
{
}

proof fn lemma_blocks_within(
    before: Seq<u8>,
    raw: Seq<u8>,
    after: Seq<u8>,
    first: int,
    m: int,
    blocks: int,
    from: int,
)
    requires
        from == (if m < blocks {
            65535 * m
        } else {
            raw.len() as int
        }),
        0 <= m <= blocks,
        raw.len() <= 65535 * blocks,
        blocks > 0 ==> 65535 * (blocks - 1) < raw.len(),
        0 <= first,
        m < blocks ==> before.len() == first + 65540 * m,
    ensures
        stored_from(raw, from).len() == raw.len() - from + 5 * (blocks - m),
        forall|k: int|
            m <= k < blocks ==> #[trigger] block_at(
                before + stored_from(raw, from) + after,
                first,
                raw,
                k,
            ),
    decreases blocks - m,
{
    if m < blocks {
        let n = block_len(raw, from);
        let c = block_bytes(raw, from);
        lemma_block_bytes(raw, from);
        let next = from + n;
        let rest = stored_from(raw, next);
        let s = stored_from(raw, from);
        assert(s == c + rest);
        lemma_blocks_within(before + c, raw, after, first, m + 1, blocks, next);
        let b = before + s + after;
        assert(b =~= (before + c) + rest + after);
        let at = before.len() as int;
        assert(b[at] == c[0] && b[at + 1] == c[1] && b[at + 2] == c[2] && b[at + 3] == c[3] && b[at
            + 4] == c[4]);
        assert forall|i: int| 0 <= i < n implies (#[trigger] b[at + 5 + i]) == raw[from + i] by {
            assert(b[at + (5 + i)] == c[5 + i]);
        }
        assert(block_at(b, first, raw, m)) by {
            reveal(block_at);
        }
        assert(rest.len() == raw.len() - next + 5 * (blocks - m - 1));
        assert(s.len() == raw.len() - from + 5 * (blocks - m));
        assert forall|k: int| m <= k < blocks implies #[trigger] block_at(b, first, raw, k) by {
            if k > m {
                assert(block_at((before + c) + rest + after, first, raw, k));
            }
        }
    } else {
        assert(stored_from(raw, raw.len() as int) =~= seq![]);
    }
}

/// A picture on disk: the eight bytes of every PNG file; the header chunk with width, height and the
/// marks of 8-bit RGB; the image chunk, with the rows in a zlib stream of stored blocks, all but the
/// last of them full, and their Adler-32; and the end chunk.
#[verifier::rlimit(40)]
pub proof fn law_picture_on_disk(
    w: usize,
    h: usize,
    rgb: &[u8],
    file: Vec<u8>,
    raw: Seq<u8>,
    blocks: int,
    header: Seq<u8>,
    image: Seq<u8>,
)
    requires
        call_ensures(write_png_rgb, (w, h, rgb), file),
        w < 0x1_0000_0000,
        h < 0x1_0000_0000,
        h * (w * 3) <= rgb@.len(),
        are_rows(raw, w as int, h as int, rgb@),
        blocks >= 0,
        raw.len() <= 65535 * blocks,
        blocks > 0 ==> 65535 * (blocks - 1) < raw.len(),
        6 + raw.len() + 5 * blocks < 0x1_0000_0000,
        file@.len() >= 51 + raw.len() + 5 * blocks,
        header == file@.subrange(16, 29),
        image == file@.subrange(41, 47 + raw.len() + 5 * blocks),
    ensures
        bytes_at(file@, 0, seq![0x89u8, 0x50, 0x4E, 0x47, 0x0D, 0x0A, 0x1A, 0x0A]),
        chunk_at(file@, 8, seq![0x49u8, 0x48, 0x44, 0x52], header),
        large_first_at(header, 0, w as int),
        large_first_at(header, 4, h as int),
        bytes_at(header, 8, seq![8u8, 2, 0, 0, 0]),
        chunk_at(file@, 33, seq![0x49u8, 0x44, 0x41, 0x54], image),
        bytes_at(image, 0, seq![0x78u8, 0x01]),
        forall|k: int| 0 <= k < blocks ==> #[trigger] block_at(image, 2, raw, k),
        large_first_at(image, 2 + raw.len() + 5 * blocks, adler32_of(raw) as int),
        chunk_at(file@, 51 + raw.len() + 5 * blocks, seq![0x49u8, 0x45, 0x4E, 0x44], seq![]),
        file@.len() == 63 + raw.len() + 5 * blocks,
{
    lemma_rows_are(raw, w as nat, h as nat, rgb@);
    let head = header_bytes(w as nat, h as nat);
    let zlib = zlib_bytes(raw);
    assert(file@ == png_signature() + chunk_bytes(ihdr(), head) + chunk_bytes(idat(), zlib)
        + chunk_bytes(iend(), Seq::<u8>::empty()));
    lemma_header(w as u32, h as u32);
    lemma_zlib(raw, blocks);
    lemma_file(head, zlib, file@);
}

proof fn lemma_header(w: u32, h: u32)
    ensures
        ({
            let head = header_bytes(w as nat, h as nat);
            &&& head.len() == 13
            &&& large_first_at(head, 0, w as int)
            &&& large_first_at(head, 4, h as int)
            &&& bytes_at(head, 8, seq![8u8, 2, 0, 0, 0])
        }),
{
    lemma_large_first(w);
    lemma_large_first(h);
}

proof fn lemma_zlib(raw: Seq<u8>, blocks: int)
    requires
        blocks >= 0,
        raw.len() <= 65535 * blocks,
        blocks > 0 ==> 65535 * (blocks - 1) < raw.len(),
    ensures
        ({
            let zlib = zlib_bytes(raw);
            &&& zlib.len() == 6 + raw.len() + 5 * blocks
            &&& bytes_at(zlib, 0, seq![0x78u8, 0x01])
            &&& forall|k: int| 0 <= k < blocks ==> #[trigger] block_at(zlib, 2, raw, k)
            &&& large_first_at(zlib, 2 + raw.len() + 5 * blocks, adler32_of(raw) as int)
        }),
{
    let zlib = zlib_bytes(raw);
    let stored = stored_from(raw, 0);
    let sum = be32(adler32_of(raw));
    let start = seq![0x78u8, 0x01];
    lemma_large_first(adler32_of(raw));
    assert(blocks == 0 ==> raw.len() == 0);
    lemma_blocks_within(start, raw, sum, 2, 0, blocks, 0);
    assert(zlib == start + stored + sum);
    let end = 2 + raw.len() + 5 * blocks;
    assert(zlib[end] == sum[0] && zlib[end + 1] == sum[1] && zlib[end + 2] == sum[2] && zlib[end + 3]
        == sum[3]);
}

proof fn lemma_file(head: Seq<u8>, zlib: Seq<u8>, file: Seq<u8>)
    requires
        head.len() == 13,
        zlib.len() <= u32::MAX,
        file == png_signature() + chunk_bytes(ihdr(), head) + chunk_bytes(idat(), zlib)
            + chunk_bytes(iend(), Seq::<u8>::empty()),
    ensures
        ({
            let n = zlib.len() as int;
            let none = Seq::<u8>::empty();
            &&& bytes_at(file, 0, seq![0x89u8, 0x50, 0x4E, 0x47, 0x0D, 0x0A, 0x1A, 0x0A])
            &&& chunk_at(file, 8, seq![0x49u8, 0x48, 0x44, 0x52], head)
            &&& chunk_at(file, 33, seq![0x49u8, 0x44, 0x41, 0x54], zlib)
            &&& chunk_at(file, 45 + n, seq![0x49u8, 0x45, 0x4E, 0x44], none)
            &&& file.len() == 57 + n
            &&& file.subrange(16, 29) == head
            &&& file.subrange(41, 41 + n) == zlib
        }),
{
    let none = Seq::<u8>::empty();
    let sign = png_signature();
    let (a, b, c) = (chunk_bytes(ihdr(), head), chunk_bytes(idat(), zlib), chunk_bytes(iend(), none));
    lemma_chunk_within(sign, ihdr(), head, b + c);
    lemma_chunk_within(sign + a, idat(), zlib, c);
    lemma_chunk_within(sign + a + b, iend(), none, none);
    assert(file =~= sign + a + (b + c));
    assert(file =~= (sign + a) + b + c);
    assert(file =~= (sign + a + b) + c + none);
    assert(bytes_at(file, 16, head) && bytes_at(file, 41, zlib)) by {
        reveal(chunk_at);
    }
    lemma_part_is(file, 16, head);
    lemma_part_is(file, 41, zlib);
}

proof fn lemma_part_is(b: Seq<u8>, at: int, part: Seq<u8>)
    requires
        bytes_at(b, at, part),
    ensures
        b.subrange(at, at + part.len()) == part,
{
    assert(b.subrange(at, at + part.len()) =~= part);
}

} // verus!
