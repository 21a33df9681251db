//! How a PNG file of this kind is read, and that the image is found again in it.
use vstd::prelude::*;
use crate::checksum::{adler32_of, crc32_of};
use crate::png::{
    be32, block_bytes, block_len, chunk_bytes, header_bytes, idat, iend, ihdr, le16, png_bytes,
    png_signature, scanlines, stored_from, zlib_bytes,
};
use crate::protocol::low32;

verus! {

/// The number whose bytes, most significant first, stand in `b`.
#[verifier::opaque]
pub open spec fn be32_value(b: Seq<u8>) -> u32
    recommends
        b.len() == 4,
{
    (16777216 * b[0] + 65536 * b[1] + 256 * b[2] + b[3]) as u32
}

/// The number whose two bytes, least significant first, stand in `b` at `i`.
pub open spec fn le16_at(b: Seq<u8>, i: int) -> int {
    b[i] + 256 * b[i + 1]
}

/// A chunk that was read: its type, its data, and where it ends.
pub struct Chunk {
    pub typ: Seq<u8>,
    pub data: Seq<u8>,
    pub end: int,
}

/// Reads the chunk at `pos`; one that is cut short or whose CRC is wrong is none.
#[verifier::opaque]
pub open spec fn read_chunk(b: Seq<u8>, pos: int) -> Option<Chunk> {
    if pos + 12 > b.len() {
        None
    } else {
        let n = be32_value(b.subrange(pos, pos + 4)) as int;
        let end = pos + 12 + n;
        if end > b.len() {
            None
        } else {
            let typ = b.subrange(pos + 4, pos + 8);
            let data = b.subrange(pos + 8, pos + 8 + n);
            if be32_value(b.subrange(end - 4, end)) == crc32_of(typ + data) {
                Some(Chunk { typ, data, end })
            } else {
                None
            }
        }
    }
}

/// Reads stored blocks from `pos` to the last; gives the bytes in them and where they end.
pub open spec fn read_stored(b: Seq<u8>, pos: int) -> Option<(Seq<u8>, int)>
    decreases b.len() - pos,
{
    if pos < 0 || pos + 5 > b.len() {
        None
    } else {
        let n = le16_at(b, pos + 1);
        let end = pos + 5 + n;
        if b[pos] > 1 || n + le16_at(b, pos + 3) != 65535 || end > b.len() {
            None
        } else if b[pos] == 1 {
            Some((b.subrange(pos + 5, end), end))
        } else {
            match read_stored(b, end) {
                Some((rest, last)) => Some((b.subrange(pos + 5, end) + rest, last)),
                None => None,
            }
        }
    }
}

/// Reads a zlib stream of stored blocks; one whose Adler-32 is wrong is none.
pub open spec fn read_zlib(b: Seq<u8>) -> Option<Seq<u8>> {
    if b.len() < 2 || b[0] != 0x78 || b[1] != 0x01 {
        None
    } else {
        match read_stored(b, 2) {
            Some((raw, end)) => if end + 4 == b.len() && be32_value(b.subrange(end, end + 4))
                == adler32_of(raw) {
                Some(raw)
            } else {
                None
            },
            None => None,
        }
    }
}

/// Reads `h` scanlines of `w` pixels, none of them filtered.
pub open spec fn read_scanlines(raw: Seq<u8>, w: nat, h: nat) -> Option<Seq<u8>>
    decreases h,
{
    if h == 0 {
        if raw.len() == 0 {
            Some(seq![])
        } else {
            None
        }
    } else {
        let start = raw.len() - (1 + w * 3);
        if start < 0 || raw[start] != 0 {
            None
        } else {
            match read_scanlines(raw.take(start), w, (h - 1) as nat) {
                Some(rgb) => Some(rgb + raw.skip(start + 1)),
                None => None,
            }
        }
    }
}

/// An image: its width, its height, and three bytes a pixel.
pub struct Image {
    pub w: u32,
    pub h: u32,
    pub rgb: Seq<u8>,
}

/// Reads a PNG file: a header for 8-bit RGB, one data chunk, the end.
pub open spec fn read_png(b: Seq<u8>) -> Option<Image> {
    if b.len() < 8 || b.take(8) != png_signature() {
        None
    } else {
        match read_chunk(b, 8) {
            Some(head) => match read_chunk(b, head.end) {
                Some(body) => match read_chunk(b, body.end) {
                    Some(tail) => if head.typ == ihdr() && head.data.len() == 13 && head.data.skip(8)
                        == seq![8u8, 2, 0, 0, 0] && body.typ == idat() && tail.typ == iend()
                        && tail.end == b.len() {
                        let w = be32_value(head.data.subrange(0, 4));
                        let h = be32_value(head.data.subrange(4, 8));
                        match read_zlib(body.data) {
                            Some(raw) => match read_scanlines(raw, w as nat, h as nat) {
                                Some(rgb) => Some(Image { w, h, rgb }),
                                None => None,
                            },
                            None => None,
                        }
                    } else {
                        None
                    },
                    None => None,
                },
                None => None,
            },
            None => None,
        }
    }
}

proof fn lemma_be32(x: u32)
    ensures
        be32(x).len() == 4,
        be32_value(be32(x)) == x,
{
    reveal(be32);
    reveal(be32_value);
}

proof fn lemma_parts(
    before: Seq<u8>,
    len: Seq<u8>,
    typ: Seq<u8>,
    data: Seq<u8>,
    crc: Seq<u8>,
    after: Seq<u8>,
)
    requires
        len.len() == 4,
        typ.len() == 4,
        crc.len() == 4,
    ensures
        ({
            let b = before + (len + typ + data + crc) + after;
            let pos = before.len() as int;
            let n = data.len() as int;
            &&& (len + typ + data + crc).len() == 12 + n
            &&& b.subrange(pos, pos + 4) == len
            &&& b.subrange(pos + 4, pos + 8) == typ
            &&& b.subrange(pos + 8, pos + 8 + n) == data
            &&& b.subrange(pos + 8 + n, pos + 12 + n) == crc
        }),
{
    let b = before + (len + typ + data + crc) + after;
    let pos = before.len() as int;
    let n = data.len() as int;
    assert(b.subrange(pos, pos + 4) =~= len);
    assert(b.subrange(pos + 4, pos + 8) =~= typ);
    assert(b.subrange(pos + 8, pos + 8 + n) =~= data);
    assert(b.subrange(pos + 8 + n, pos + 12 + n) =~= crc);
}

proof fn lemma_read_chunk(before: Seq<u8>, typ: Seq<u8>, data: Seq<u8>, after: Seq<u8>)
    requires
        typ.len() == 4,
        data.len() <= u32::MAX,
    ensures
        read_chunk(before + chunk_bytes(typ, data) + after, before.len() as int) == Some(
            Chunk { typ, data, end: (before.len() + chunk_bytes(typ, data).len()) as int },
        ),
        chunk_bytes(typ, data).len() == 12 + data.len(),
{
    reveal(read_chunk);
    let len = low32(data.len());
    let crc = crc32_of(typ + data);
    lemma_be32(len);
    lemma_be32(crc);
    lemma_parts(before, be32(len), typ, data, be32(crc), after);
}

proof fn lemma_block_parts(
    before: Seq<u8>,
    last: u8,
    len: Seq<u8>,
    not_len: Seq<u8>,
    data: Seq<u8>,
    rest: Seq<u8>,
    after: Seq<u8>,
)
    requires
        len.len() == 2,
        not_len.len() == 2,
    ensures
        ({
            let block = seq![last] + len + not_len + data;
            let b = before + (block + rest) + after;
            let pos = before.len() as int;
            let n = data.len() as int;
            &&& block.len() == 5 + n
            &&& b.len() >= pos + 5 + n
            &&& b[pos] == last
            &&& b[pos + 1] == len[0] && b[pos + 2] == len[1]
            &&& b[pos + 3] == not_len[0] && b[pos + 4] == not_len[1]
            &&& b.subrange(pos + 5, pos + 5 + n) == data
            &&& b == (before + block) + rest + after
        }),
{
    let block = seq![last] + len + not_len + data;
    let b = before + (block + rest) + after;
    let pos = before.len() as int;
    let n = data.len() as int;
    assert(b.subrange(pos + 5, pos + 5 + n) =~= data);
    assert(b =~= (before + block) + rest + after);
}

#[verifier::rlimit(40)]
proof fn lemma_read_stored(before: Seq<u8>, raw: Seq<u8>, i: int, after: Seq<u8>)
    requires
        0 <= i < raw.len(),
    ensures
        read_stored(before + stored_from(raw, i) + after, before.len() as int) == Some(
            (raw.skip(i), (before.len() + stored_from(raw, i).len()) as int),
        ),
    decreases raw.len() - i,
{
    let n = block_len(raw, i);
    let block = block_bytes(raw, i);
    let rest = stored_from(raw, i + n);
    let b = before + stored_from(raw, i) + after;
    let pos = before.len() as int;
    let data = raw.subrange(i, i + n);
    lemma_block_parts(before, block[0], le16(n as u16), le16((65535 - n) as u16), data, rest, after);
    assert(le16_at(b, pos + 1) == n);
    assert(le16_at(b, pos + 3) == 65535 - n);
    if i + n < raw.len() {
        lemma_read_stored(before + block, raw, i + n, after);
        assert(data + raw.skip(i + n) =~= raw.skip(i));
    } else {
        assert(rest =~= seq![]);
        assert(data =~= raw.skip(i));
    }
}

proof fn lemma_read_zlib(raw: Seq<u8>)
    requires
        raw.len() > 0,
    ensures
        read_zlib(zlib_bytes(raw)) == Some(raw),
{
    let b = zlib_bytes(raw);
    let head = seq![0x78u8, 0x01];
    let sum = be32(adler32_of(raw));
    lemma_read_stored(head, raw, 0, sum);
    lemma_be32(adler32_of(raw));
    assert(raw.skip(0) =~= raw);
    let end = (head.len() + stored_from(raw, 0).len()) as int;
    assert(b.subrange(end, end + 4) =~= sum);
}

proof fn lemma_rows(w: nat, h: nat)
    requires
        h > 0,
    ensures
        h * (1 + w * 3) == ((h - 1) as nat) * (1 + w * 3) + 1 + w * 3,
        h * (w * 3) == ((h - 1) as nat) * (w * 3) + w * 3,
{
    let y = (h - 1) as nat;
    assert((y + 1) * (1 + w * 3) == y * (1 + w * 3) + (1 + w * 3)) by (nonlinear_arith);
    assert((y + 1) * (w * 3) == y * (w * 3) + w * 3) by (nonlinear_arith);
}

proof fn lemma_read_scanlines(w: nat, h: nat, rgb: Seq<u8>)
    requires
        h * (w * 3) <= rgb.len(),
    ensures
        scanlines(w, h, rgb).len() == h * (1 + w * 3),
        read_scanlines(scanlines(w, h, rgb), w, h) == Some(rgb.take((h * (w * 3)) as int)),
    decreases h,
{
    if h == 0 {
        assert(rgb.take(0) =~= seq![]);
    } else {
        let y = (h - 1) as nat;
        lemma_rows(w, h);
        lemma_read_scanlines(w, y, rgb);
        let raw = scanlines(w, h, rgb);
        let row = rgb.subrange((y * (w * 3)) as int, (h * (w * 3)) as int);
        let start = raw.len() - (1 + w * 3);
        assert(raw.take(start) =~= scanlines(w, y, rgb));
        assert(raw.skip(start + 1) =~= row);
        assert(rgb.take((y * (w * 3)) as int) + row =~= rgb.take((h * (w * 3)) as int));
    }
}

proof fn lemma_read_header(w: nat, h: nat)
    requires
        w <= u32::MAX,
        h <= u32::MAX,
    ensures
        header_bytes(w, h).len() == 13,
        header_bytes(w, h).skip(8) == seq![8u8, 2, 0, 0, 0],
        be32_value(header_bytes(w, h).subrange(0, 4)) == w,
        be32_value(header_bytes(w, h).subrange(4, 8)) == h,
{
    let b = header_bytes(w, h);
    lemma_be32(low32(w));
    lemma_be32(low32(h));
    assert(b.skip(8) =~= seq![8u8, 2, 0, 0, 0]);
    assert(b.subrange(0, 4) =~= be32(low32(w)));
    assert(b.subrange(4, 8) =~= be32(low32(h)));
}

proof fn lemma_three_chunks(sig: Seq<u8>, c1: Seq<u8>, c2: Seq<u8>, c3: Seq<u8>)
    requires
        sig.len() == 8,
    ensures
        ({
            let b = sig + c1 + c2 + c3;
            &&& b == sig + c1 + (c2 + c3)
            &&& b == (sig + c1) + c2 + c3
            &&& b == (sig + c1 + c2) + c3 + Seq::<u8>::empty()
            &&& b.take(8) == sig
        }),
{
    let b = sig + c1 + c2 + c3;
    assert(b =~= sig + c1 + (c2 + c3));
    assert(b =~= (sig + c1 + c2) + c3 + Seq::<u8>::empty());
    assert(b.take(8) =~= sig);
}

proof fn lemma_read_chunks(header: Seq<u8>, body: Seq<u8>)
    requires
        header.len() <= u32::MAX,
        body.len() <= u32::MAX,
    ensures
        ({
            let b = png_signature() + chunk_bytes(ihdr(), header) + chunk_bytes(idat(), body)
                + chunk_bytes(iend(), seq![]);
            let e1 = 20 + header.len() as int;
            let e2 = 12 + e1 + body.len() as int;
            &&& b.len() == 12 + e2
            &&& b.take(8) == png_signature()
            &&& read_chunk(b, 8) == Some(Chunk { typ: ihdr(), data: header, end: e1 })
            &&& read_chunk(b, e1) == Some(Chunk { typ: idat(), data: body, end: e2 })
            &&& read_chunk(b, e2) == Some(
                Chunk { typ: iend(), data: seq![], end: b.len() as int },
            )
        }),
{
    let sig = png_signature();
    let none = Seq::<u8>::empty();
    let c1 = chunk_bytes(ihdr(), header);
    let c2 = chunk_bytes(idat(), body);
    let c3 = chunk_bytes(iend(), none);
    let b = sig + c1 + c2 + c3;
    let e1 = 20 + header.len() as int;
    let e2 = 12 + e1 + body.len() as int;
    lemma_three_chunks(sig, c1, c2, c3);
    lemma_read_chunk(sig, ihdr(), header, c2 + c3);
    lemma_read_chunk(sig + c1, idat(), body, c3);
    lemma_read_chunk(sig + c1 + c2, iend(), none, none);
    assert(e1 == (sig + c1).len());
    assert(e2 == (sig + c1 + c2).len());
}

proof fn lemma_assemble(
    b: Seq<u8>,
    head: Chunk,
    body: Chunk,
    tail: Chunk,
    w: u32,
    h: u32,
    raw: Seq<u8>,
    rgb: Seq<u8>,
)
    requires
        b.len() >= 8,
        b.take(8) == png_signature(),
        read_chunk(b, 8) == Some(head),
        read_chunk(b, head.end) == Some(body),
        read_chunk(b, body.end) == Some(tail),
        head.typ == ihdr(),
        head.data.len() == 13,
        head.data.skip(8) == seq![8u8, 2, 0, 0, 0],
        body.typ == idat(),
        tail.typ == iend(),
        tail.end == b.len(),
        be32_value(head.data.subrange(0, 4)) == w,
        be32_value(head.data.subrange(4, 8)) == h,
        read_zlib(body.data) == Some(raw),
        read_scanlines(raw, w as nat, h as nat) == Some(rgb),
    ensures
        read_png(b) == Some(Image { w, h, rgb }),
{
}

/// The image is found again in the file: a reader that checks every length and checksum reads
/// the same width, the same height and the same pixels.
///
/// An image without rows is left out: its zlib stream has no block.
pub proof fn law_png_read_back(w: nat, h: nat, rgb: Seq<u8>)
    requires
        w <= u32::MAX,
        0 < h <= u32::MAX,
        h * (w * 3) <= rgb.len(),
        zlib_bytes(scanlines(w, h, rgb)).len() <= u32::MAX,
    ensures
        read_png(png_bytes(w, h, rgb)) == Some(
            Image { w: w as u32, h: h as u32, rgb: rgb.take((h * (w * 3)) as int) },
        ),
{
    let b = png_bytes(w, h, rgb);
    let header = header_bytes(w, h);
    let raw = scanlines(w, h, rgb);
    let body = zlib_bytes(raw);
    lemma_read_header(w, h);
    lemma_read_scanlines(w, h, rgb);
    lemma_rows(w, h);
    lemma_read_zlib(raw);
    lemma_read_chunks(header, body);
    lemma_assemble(
        b,
        Chunk { typ: ihdr(), data: header, end: 20 + header.len() as int },
        Chunk { typ: idat(), data: body, end: 32 + header.len() + body.len() as int },
        Chunk { typ: iend(), data: seq![], end: b.len() as int },
        w as u32,
        h as u32,
        raw,
        rgb.take((h * (w * 3)) as int),
    );
}

} // verus!
