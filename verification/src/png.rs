//! A minimal PNG writer: RGB8, in a zlib stream of stored (uncompressed) blocks.
use vstd::prelude::*;
use crate::checksum::{adler32, adler32_of, crc32, crc32_of};
use crate::frame::append_bytes;
use crate::protocol::low32;

verus! {

/// The four bytes of `x`, most significant first.
#[verifier::opaque]
pub open spec fn be32(x: u32) -> Seq<u8> {
    seq![
        (x / 16777216) as u8,
        (x / 65536 % 256) as u8,
        (x / 256 % 256) as u8,
        (x % 256) as u8,
    ]
}

/// The two bytes of `x`, least significant first.
pub open spec fn le16(x: u16) -> Seq<u8> {
    seq![(x % 256) as u8, (x / 256) as u8]
}

/// A chunk: the length of its data, its type, the data, and the CRC of the latter two.
pub open spec fn chunk_bytes(typ: Seq<u8>, data: Seq<u8>) -> Seq<u8> {
    be32(low32(data.len())) + typ + data + be32(crc32_of(typ + data))
}

/// The first `h` scanlines of an image `w` pixels wide: each a filter byte 0 and the pixels.
pub open spec fn scanlines(w: nat, h: nat, rgb: Seq<u8>) -> Seq<u8>
    decreases h,
{
    if h == 0 {
        seq![]
    } else {
        let y = (h - 1) as nat;
        scanlines(w, y, rgb) + seq![0u8] + rgb.subrange((y * (w * 3)) as int, (h * (w * 3)) as int)
    }
}

/// How many bytes a stored block that starts at `i` takes: as many as are left, at most 65535.
pub open spec fn block_len(raw: Seq<u8>, i: int) -> int {
    if raw.len() - i <= 65535 {
        raw.len() - i
    } else {
        65535
    }
}

/// A stored block: whether it is the last, its length, the length complemented, the bytes.
pub open spec fn block_bytes(raw: Seq<u8>, i: int) -> Seq<u8> {
    let n = block_len(raw, i);
    seq![
        if i + n >= raw.len() {
            1u8
        } else {
            0u8
        },
    ] + le16(n as u16) + le16((65535 - n) as u16) + raw.subrange(i, i + n)
}

/// The stored blocks that hold `raw` from `i` on.
pub open spec fn stored_from(raw: Seq<u8>, i: int) -> Seq<u8>
    decreases raw.len() - i,
{
    if 0 <= i < raw.len() {
        block_bytes(raw, i) + stored_from(raw, i + block_len(raw, i))
    } else {
        seq![]
    }
}

/// A zlib stream that holds `raw` in stored blocks.
pub open spec fn zlib_bytes(raw: Seq<u8>) -> Seq<u8> {
    seq![0x78u8, 0x01] + stored_from(raw, 0) + be32(adler32_of(raw))
}

/// The eight bytes that open a PNG file.
pub open spec fn png_signature() -> Seq<u8> {
    seq![0x89u8, 0x50, 0x4E, 0x47, 0x0D, 0x0A, 0x1A, 0x0A]
}

pub open spec fn ihdr() -> Seq<u8> {
    seq![0x49u8, 0x48, 0x44, 0x52]
}

pub open spec fn idat() -> Seq<u8> {
    seq![0x49u8, 0x44, 0x41, 0x54]
}

pub open spec fn iend() -> Seq<u8> {
    seq![0x49u8, 0x45, 0x4E, 0x44]
}

/// The image header: width, height, 8 bits, RGB, deflate, no filter, no interlace.
pub open spec fn header_bytes(w: nat, h: nat) -> Seq<u8> {
    be32(low32(w)) + be32(low32(h)) + seq![8u8, 2, 0, 0, 0]
}

/// A PNG file that shows the first `w * h` pixels of `rgb`.
pub open spec fn png_bytes(w: nat, h: nat, rgb: Seq<u8>) -> Seq<u8> {
    png_signature() + chunk_bytes(ihdr(), header_bytes(w, h)) + chunk_bytes(
        idat(),
        zlib_bytes(scanlines(w, h, rgb)),
    ) + chunk_bytes(iend(), seq![])
}

fn write_be32(out: &mut Vec<u8>, x: u32)
    ensures
        final(out)@ == old(out)@ + be32(x),
{
    reveal(be32);
    out.push((x / 16777216) as u8);
    out.push((x / 65536 % 256) as u8);
    out.push((x / 256 % 256) as u8);
    out.push((x % 256) as u8);
    assert(out@ =~= old(out)@ + be32(x));
}

fn write_le16(out: &mut Vec<u8>, x: u16)
    ensures
        final(out)@ == old(out)@ + le16(x),
{
    out.push((x % 256) as u8);
    out.push((x / 256) as u8);
    assert(out@ =~= old(out)@ + le16(x));
}

fn low32_of(n: usize) -> (x: u32)
    ensures
        x == low32(n as nat),
{
    (n as u64 % 0x1_0000_0000) as u32
}

/// Appends a chunk to a file.
pub fn png_chunk(out: &mut Vec<u8>, typ: &[u8; 4], data: &[u8])
    ensures
        final(out)@ == old(out)@ + chunk_bytes(typ@, data@),
{
    write_be32(out, low32_of(data.len()));
    let start: usize = out.len();
    append_bytes(out, typ.as_slice());
    append_bytes(out, data);
    let crc: u32 = crc32(vstd::slice::slice_subrange(out.as_slice(), start, out.len()));
    assert(out@.subrange(start as int, out@.len() as int) =~= typ@ + data@);
    write_be32(out, crc);
    assert(out@ =~= old(out)@ + chunk_bytes(typ@, data@));
}

/// The scanlines of an image.
fn write_scanlines(w: usize, h: usize, rgb: &[u8]) -> (raw: Vec<u8>)
    requires
        h * (w * 3) <= rgb@.len(),
    ensures
        raw@ == scanlines(w as nat, h as nat, rgb@),
{
    let mut raw: Vec<u8> = Vec::new();
    let mut y: usize = 0;
    assert(raw@ =~= scanlines(w as nat, 0, rgb@));
    while y < h
        invariant
            y <= h,
            h * (w * 3) <= rgb@.len(),
            raw@ == scanlines(w as nat, y as nat, rgb@),
        decreases h - y,
    {
        let ghost before = raw@;
        assert(0 <= y * (w * 3) <= (y + 1) * (w * 3) <= h * (w * 3) && w * 3 <= (y + 1) * (w * 3))
            by (nonlinear_arith)
            requires
                0 <= y < h,
                0 <= w,
        ;
        let len: usize = rgb.len();
        assert(h * (w * 3) <= len);
        let row: usize = w * 3;
        let from: usize = y * row;
        let to: usize = (y + 1) * row;
        raw.push(0);
        append_bytes(&mut raw, vstd::slice::slice_subrange(rgb, from, to));
        assert(raw@ =~= before + seq![0u8] + rgb@.subrange(from as int, to as int));
        y += 1;
    }
    raw
}

/// A zlib stream that holds `raw` in stored blocks.
fn write_zlib(raw: &[u8]) -> (zlib: Vec<u8>)
    ensures
        zlib@ == zlib_bytes(raw@),
{
    let mut zlib: Vec<u8> = Vec::new();
    zlib.push(0x78);
    zlib.push(0x01);
    let mut i: usize = 0;
    let ghost head = seq![0x78u8, 0x01];
    assert(zlib@ + stored_from(raw@, 0) =~= head + stored_from(raw@, 0));
    while i < raw.len()
        invariant
            i <= raw@.len(),
            zlib@ + stored_from(raw@, i as int) == head + stored_from(raw@, 0),
        decreases raw@.len() - i,
    {
        let left: usize = raw.len() - i;
        let n: usize = if left <= 65535 {
            left
        } else {
            65535
        };
        let ghost before = zlib@;
        zlib.push(
            if i + n >= raw.len() {
                1
            } else {
                0
            },
        );
        write_le16(&mut zlib, n as u16);
        write_le16(&mut zlib, 65535 - n as u16);
        append_bytes(&mut zlib, vstd::slice::slice_subrange(raw, i, i + n));
        proof {
            assert(zlib@ =~= before + block_bytes(raw@, i as int));
            assert(before + stored_from(raw@, i as int) =~= zlib@ + stored_from(raw@, i + n));
        }
        i += n;
    }
    assert(zlib@ + stored_from(raw@, i as int) =~= zlib@);
    write_be32(&mut zlib, adler32(raw));
    assert(zlib@ =~= zlib_bytes(raw@));
    zlib
}

/// The bytes of a PNG file that shows an image of `w * h` pixels, three bytes each.
pub fn write_png_rgb(w: usize, h: usize, rgb: &[u8]) -> (file: Vec<u8>)
    requires
        h * (w * 3) <= rgb@.len(),
        h * (1 + w * 3) <= isize::MAX,
    ensures
        file@ == png_bytes(w as nat, h as nat, rgb@),
{
    let raw: Vec<u8> = write_scanlines(w, h, rgb);
    let zlib: Vec<u8> = write_zlib(raw.as_slice());
    let mut file: Vec<u8> = Vec::new();
    append_bytes(&mut file, [0x89u8, 0x50, 0x4E, 0x47, 0x0D, 0x0A, 0x1A, 0x0A].as_slice());
    assert(file@ =~= png_signature());
    let mut header: Vec<u8> = Vec::new();
    write_be32(&mut header, low32_of(w));
    write_be32(&mut header, low32_of(h));
    append_bytes(&mut header, [8u8, 2, 0, 0, 0].as_slice());
    assert(header@ =~= header_bytes(w as nat, h as nat));
    let typ: [u8; 4] = [0x49, 0x48, 0x44, 0x52];
    assert(typ@ =~= ihdr());
    png_chunk(&mut file, &typ, header.as_slice());
    let typ: [u8; 4] = [0x49, 0x44, 0x41, 0x54];
    assert(typ@ =~= idat());
    png_chunk(&mut file, &typ, zlib.as_slice());
    let typ: [u8; 4] = [0x49, 0x45, 0x4E, 0x44];
    assert(typ@ =~= iend());
    let none: Vec<u8> = Vec::new();
    png_chunk(&mut file, &typ, none.as_slice());
    assert(none@ =~= seq![]);
    file
}

} // verus!
