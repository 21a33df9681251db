//! The wire format: how tags, integers, strings, blobs and audio are laid out in bytes.
//!
//! Integers are little-endian `u32`. A string is its UTF-8 byte length followed by the bytes,
//! a blob its length followed by the bytes. An audio sample is the bit pattern of an `f32`,
//! carried here as a `u32`.
//!
//! The readers work on the part of a message that has arrived so far. Where it is not all
//! there, they say how many more bytes can be read without running past the item.
use vstd::prelude::*;
use vstd::utf8::{decode_utf8, encode_utf8, valid_utf8};
use crate::bytes::{
    le32, le32_value, lemma_le32_len, lemma_le32_value_le32, lemma_samples_len,
    lemma_samples_of_bytes, samples_bytes, samples_of,
};
use crate::tags::Tag;

verus! {

broadcast use {lemma_le32_len, lemma_samples_len, vstd::utf8::encode_utf8_valid_utf8};

/// A blob on the wire.
pub open spec fn blob_bytes(blob: Seq<u8>) -> Seq<u8> {
    le32(blob.len() as u32) + blob
}

/// A string on the wire.
pub open spec fn string_bytes(s: Seq<char>) -> Seq<u8> {
    blob_bytes(encode_utf8(s))
}

/// Strings on the wire, one behind the other.
pub open spec fn strings_bytes(names: Seq<Seq<char>>) -> Seq<u8>
    decreases names.len(),
{
    if names.len() == 0 {
        seq![]
    } else {
        strings_bytes(names.drop_last()) + string_bytes(names.last())
    }
}

/// What a reader finds at a position of the bytes that have arrived.
pub enum Parsed<T> {
    /// The item is all there; it ends just before `end`.
    Got { value: T, end: int },
    /// At least this many more bytes belong to the item.
    More(int),
    /// The item is all there, up to just before this position, and its bytes are not what it
    /// may hold.
    Bad(int),
}

/// Reads `count` raw bytes at `pos`.
pub open spec fn parse_bytes(b: Seq<u8>, pos: int, count: int) -> Parsed<Seq<u8>> {
    if b.len() - pos < count {
        Parsed::More(count - (b.len() - pos))
    } else {
        Parsed::Got { value: b.subrange(pos, pos + count), end: pos + count }
    }
}

/// Reads an integer at `pos`.
pub open spec fn parse_u32(b: Seq<u8>, pos: int) -> Parsed<u32> {
    match parse_bytes(b, pos, 4) {
        Parsed::Got { value, end } => Parsed::Got { value: le32_value(value), end },
        Parsed::More(n) => Parsed::More(n),
        Parsed::Bad(end) => Parsed::Bad(end),
    }
}

/// Reads a blob at `pos`.
pub open spec fn parse_blob(b: Seq<u8>, pos: int) -> Parsed<Seq<u8>> {
    match parse_u32(b, pos) {
        Parsed::Got { value, end } => parse_bytes(b, end, value as int),
        Parsed::More(n) => Parsed::More(n),
        Parsed::Bad(end) => Parsed::Bad(end),
    }
}

/// Reads a string at `pos`; bytes that are not UTF-8 are bad.
pub open spec fn parse_string(b: Seq<u8>, pos: int) -> Parsed<Seq<char>> {
    match parse_blob(b, pos) {
        Parsed::Got { value, end } => if valid_utf8(value) {
            Parsed::Got { value: decode_utf8(value), end }
        } else {
            Parsed::Bad(end)
        },
        Parsed::More(n) => Parsed::More(n),
        Parsed::Bad(end) => Parsed::Bad(end),
    }
}

/// Reads `count` strings at `pos`, one behind the other.
pub open spec fn parse_strings(b: Seq<u8>, pos: int, count: nat) -> Parsed<Seq<Seq<char>>>
    decreases count,
{
    if count == 0 {
        Parsed::Got { value: seq![], end: pos }
    } else {
        match parse_strings(b, pos, (count - 1) as nat) {
            Parsed::Got { value: names, end } => match parse_string(b, end) {
                Parsed::Got { value, end } => Parsed::Got { value: names.push(value), end },
                Parsed::More(n) => Parsed::More(n),
                Parsed::Bad(end) => Parsed::Bad(end),
            },
            Parsed::More(n) => Parsed::More(n),
            Parsed::Bad(end) => Parsed::Bad(end),
        }
    }
}

/// Reads `count` audio samples at `pos`.
pub open spec fn parse_samples(b: Seq<u8>, pos: int, count: int) -> Parsed<Seq<u32>> {
    match parse_bytes(b, pos, 4 * count) {
        Parsed::Got { value, end } => Parsed::Got { value: samples_of(value), end },
        Parsed::More(n) => Parsed::More(n),
        Parsed::Bad(end) => Parsed::Bad(end),
    }
}

/// What a reader finds in the first `cut` bytes of a message, given what it finds in all of it:
/// the same where the item ends within them, and otherwise a demand for more bytes, of which
/// none lies behind the item.
pub open spec fn cut_agrees<T>(whole: Parsed<T>, part: Parsed<T>, cut: int) -> bool {
    match whole {
        Parsed::Got { value, end } => if cut >= end {
            part == whole
        } else {
            part matches Parsed::More(n) && 1 <= n <= end - cut
        },
        Parsed::Bad(end) => if cut >= end {
            part == whole
        } else {
            part matches Parsed::More(n) && 1 <= n <= end - cut
        },
        Parsed::More(_) => part is More,
    }
}

pub proof fn lemma_cut_bytes(b: Seq<u8>, pos: int, count: int, cut: int)
    requires
        0 <= pos <= cut <= b.len(),
        0 <= count,
    ensures
        cut_agrees(parse_bytes(b, pos, count), parse_bytes(b.take(cut), pos, count), cut),
{
    if pos + count <= cut {
        assert(b.take(cut).subrange(pos, pos + count) =~= b.subrange(pos, pos + count));
    }
}

pub proof fn lemma_cut_u32(b: Seq<u8>, pos: int, cut: int)
    requires
        0 <= pos <= cut <= b.len(),
    ensures
        cut_agrees(parse_u32(b, pos), parse_u32(b.take(cut), pos), cut),
{
    lemma_cut_bytes(b, pos, 4, cut);
}

pub proof fn lemma_cut_blob(b: Seq<u8>, pos: int, cut: int)
    requires
        0 <= pos <= cut <= b.len(),
    ensures
        cut_agrees(parse_blob(b, pos), parse_blob(b.take(cut), pos), cut),
{
    lemma_cut_u32(b, pos, cut);
    if let Parsed::Got { value, end } = parse_u32(b, pos) {
        if cut >= end {
            lemma_cut_bytes(b, end, value as int, cut);
        }
    }
}

pub proof fn lemma_cut_string(b: Seq<u8>, pos: int, cut: int)
    requires
        0 <= pos <= cut <= b.len(),
    ensures
        cut_agrees(parse_string(b, pos), parse_string(b.take(cut), pos), cut),
{
    lemma_cut_blob(b, pos, cut);
}

/// Where strings are found, or are bad, they end at or behind the position they start at and
/// within the bytes.
pub proof fn lemma_strings_bounds(b: Seq<u8>, pos: int, count: nat)
    requires
        0 <= pos <= b.len(),
    ensures
        parse_strings(b, pos, count) matches Parsed::Got { value, end } ==> pos <= end <= b.len()
            && value.len() == count,
        parse_strings(b, pos, count) matches Parsed::Bad(end) ==> pos <= end <= b.len(),
        parse_strings(b, pos, count) matches Parsed::More(n) ==> n >= 1,
    decreases count,
{
    if count > 0 {
        lemma_strings_bounds(b, pos, (count - 1) as nat);
    }
}

pub proof fn lemma_cut_strings(b: Seq<u8>, pos: int, count: nat, cut: int)
    requires
        0 <= pos <= cut <= b.len(),
    ensures
        cut_agrees(parse_strings(b, pos, count), parse_strings(b.take(cut), pos, count), cut),
    decreases count,
{
    if count > 0 {
        let fewer = (count - 1) as nat;
        lemma_cut_strings(b, pos, fewer, cut);
        lemma_strings_bounds(b, pos, fewer);
        if let Parsed::Got { value, end } = parse_strings(b, pos, fewer) {
            if cut >= end {
                lemma_cut_string(b, end, cut);
            }
        }
    }
}

pub proof fn lemma_cut_samples(b: Seq<u8>, pos: int, count: int, cut: int)
    requires
        0 <= pos <= cut <= b.len(),
        0 <= count,
    ensures
        cut_agrees(parse_samples(b, pos, count), parse_samples(b.take(cut), pos, count), cut),
{
    lemma_cut_bytes(b, pos, 4 * count, cut);
}

/// An integer is read back where it was written.
pub proof fn lemma_read_u32(before: Seq<u8>, x: u32, after: Seq<u8>)
    ensures
        parse_u32(before + le32(x) + after, before.len() as int) == (Parsed::Got {
            value: x,
            end: (before.len() + 4) as int,
        }),
{
    let b = before + le32(x) + after;
    lemma_le32_value_le32(x);
    assert(b.subrange(before.len() as int, (before.len() + 4) as int) =~= le32(x));
}

/// A blob is read back where it was written.
pub proof fn lemma_read_blob(before: Seq<u8>, blob: Seq<u8>, after: Seq<u8>)
    requires
        blob.len() <= u32::MAX,
    ensures
        parse_blob(before + blob_bytes(blob) + after, before.len() as int) == (Parsed::Got {
            value: blob,
            end: (before.len() + blob_bytes(blob).len()) as int,
        }),
{
    let b = before + blob_bytes(blob) + after;
    let count = blob.len() as u32;
    lemma_read_u32(before, count, blob + after);
    assert(b =~= before + le32(count) + (blob + after));
    let start = before.len() + 4;
    assert(b.subrange(start as int, (start + blob.len()) as int) =~= blob);
}

/// A string is read back where it was written.
pub proof fn lemma_read_string(before: Seq<u8>, s: Seq<char>, after: Seq<u8>)
    requires
        encode_utf8(s).len() <= u32::MAX,
    ensures
        parse_string(before + string_bytes(s) + after, before.len() as int) == (Parsed::Got {
            value: s,
            end: (before.len() + string_bytes(s).len()) as int,
        }),
{
    lemma_read_blob(before, encode_utf8(s), after);
    vstd::utf8::encode_utf8_decode_utf8(s);
}

/// Strings are read back where they were written.
pub proof fn lemma_read_strings(before: Seq<u8>, names: Seq<Seq<char>>, after: Seq<u8>)
    requires
        forall|i: int| 0 <= i < names.len() ==> encode_utf8(#[trigger] names[i]).len() <= u32::MAX,
    ensures
        parse_strings(before + strings_bytes(names) + after, before.len() as int, names.len())
            == (Parsed::Got {
            value: names,
            end: (before.len() + strings_bytes(names).len()) as int,
        }),
    decreases names.len(),
{
    let b = before + strings_bytes(names) + after;
    if names.len() == 0 {
        assert(names =~= seq![]);
    } else {
        let first = names.drop_last();
        let last = string_bytes(names.last());
        assert forall|i: int| 0 <= i < first.len() implies encode_utf8(#[trigger] first[i]).len()
            <= u32::MAX by {
            assert(first[i] == names[i]);
        }
        lemma_read_strings(before, first, last + after);
        assert(b =~= before + strings_bytes(first) + (last + after));
        lemma_read_string(before + strings_bytes(first), names.last(), after);
        assert(b =~= (before + strings_bytes(first)) + last + after);
        assert(first.push(names.last()) =~= names);
    }
}

/// Samples are read back where they were written.
pub proof fn lemma_read_samples(before: Seq<u8>, samples: Seq<u32>, after: Seq<u8>)
    ensures
        parse_samples(
            before + samples_bytes(samples) + after,
            before.len() as int,
            samples.len() as int,
        ) == (Parsed::Got {
            value: samples,
            end: (before.len() + 4 * samples.len()) as int,
        }),
{
    let b = before + samples_bytes(samples) + after;
    lemma_samples_of_bytes(samples);
    let start = before.len() as int;
    assert(b.subrange(start, start + 4 * samples.len()) =~= samples_bytes(samples));
}

/// What a reader hands back: the item and the position behind it, or how many more bytes it
/// may ask for, or that the bytes are not what the item may hold.
pub enum Step<T> {
    Got(T, usize),
    More(usize),
    Bad(usize),
}

/// Appends the bytes of `more` to `out`.
pub fn append_bytes(out: &mut Vec<u8>, more: &[u8])
    ensures
        final(out)@ == old(out)@ + more@,
{
    out.extend_from_slice(more);
    assert(out@ =~= old(out)@ + more@);
}

/// Appends a tag to a message.
pub fn write_tag(out: &mut Vec<u8>, tag: Tag)
    ensures
        final(out)@ == old(out)@ + tag@,
{
    out.push(tag[0]);
    out.push(tag[1]);
    out.push(tag[2]);
    out.push(tag[3]);
    assert(out@ =~= old(out)@ + tag@);
}

/// Appends an integer to a message.
pub fn write_u32(out: &mut Vec<u8>, x: u32)
    ensures
        final(out)@ == old(out)@ + le32(x),
{
    out.push((x % 256) as u8);
    out.push((x / 256 % 256) as u8);
    out.push((x / 65536 % 256) as u8);
    out.push((x / 16777216) as u8);
    reveal(le32);
    assert(out@ =~= old(out)@ + le32(x));
}

/// Appends a blob to a message.
pub fn write_blob(out: &mut Vec<u8>, blob: &[u8])
    requires
        blob@.len() <= u32::MAX,
    ensures
        final(out)@ == old(out)@ + blob_bytes(blob@),
{
    write_u32(out, blob.len() as u32);
    append_bytes(out, blob);
    assert(out@ =~= old(out)@ + blob_bytes(blob@));
}

/// Appends a string to a message.
pub fn write_string(out: &mut Vec<u8>, s: &str)
    requires
        encode_utf8(s@).len() <= u32::MAX,
    ensures
        final(out)@ == old(out)@ + string_bytes(s@),
{
    write_blob(out, s.as_bytes());
}

/// Appends audio samples to a message.
pub fn write_samples(out: &mut Vec<u8>, samples: &[u32])
    ensures
        final(out)@ == old(out)@ + samples_bytes(samples@),
{
    let mut i: usize = 0;
    assert(out@ =~= old(out)@ + samples_bytes(samples@.take(0)));
    while i < samples.len()
        invariant
            i <= samples@.len(),
            out@ == old(out)@ + samples_bytes(samples@.take(i as int)),
        decreases samples@.len() - i,
    {
        write_u32(out, samples[i]);
        proof {
            let before = samples@.take(i as int);
            let after = samples@.take(i + 1);
            reveal(samples_bytes);
            assert(samples_bytes(after) =~= samples_bytes(before) + le32(samples@[i as int]));
        }
        i += 1;
    }
    assert(samples@.take(i as int) =~= samples@);
}

/// Reads an integer at `pos`.
pub fn read_u32(b: &[u8], pos: usize) -> (r: Step<u32>)
    requires
        pos <= b@.len(),
    ensures
        match r {
            Step::Got(value, end) => parse_u32(b@, pos as int) == (Parsed::Got {
                value,
                end: end as int,
            }),
            Step::More(n) => parse_u32(b@, pos as int) == Parsed::<u32>::More(n as int),
            Step::Bad(end) => parse_u32(b@, pos as int) == Parsed::<u32>::Bad(end as int),
        },
{
    let left: usize = b.len() - pos;
    if left < 4 {
        return Step::More(4 - left);
    }
    let x: u32 = b[pos] as u32 + 256 * b[pos + 1] as u32 + 65536 * b[pos + 2] as u32 + 16777216
        * b[pos + 3] as u32;
    reveal(le32_value);
    Step::Got(x, pos + 4)
}

/// Reads a blob at `pos`.
pub fn read_blob(b: &[u8], pos: usize) -> (r: Step<Vec<u8>>)
    requires
        pos <= b@.len(),
    ensures
        match r {
            Step::Got(value, end) => parse_blob(b@, pos as int) == (Parsed::Got {
                value: value@,
                end: end as int,
            }),
            Step::More(n) => parse_blob(b@, pos as int) == Parsed::<Seq<u8>>::More(n as int),
            Step::Bad(end) => parse_blob(b@, pos as int) == Parsed::<Seq<u8>>::Bad(end as int),
        },
{
    match read_u32(b, pos) {
        Step::Got(count, start) => {
            let left: usize = b.len() - start;
            if left < count as usize {
                return Step::More(count as usize - left);
            }
            let end: usize = start + count as usize;
            let mut value: Vec<u8> = Vec::new();
            append_bytes(&mut value, vstd::slice::slice_subrange(b, start, end));
            assert(value@ =~= b@.subrange(start as int, end as int));
            Step::Got(value, end)
        },
        Step::More(n) => Step::More(n),
        Step::Bad(end) => Step::Bad(end),
    }
}

/// The text that UTF-8 bytes stand for.
///
/// Calls `String::from_utf8`: it answers with the decoded text exactly where the bytes are
/// valid UTF-8, and fails on all others.
#[verifier::external_body]
pub(crate) fn string_from_utf8(bytes: Vec<u8>) -> (r: Option<String>)
    ensures
        r is Some <==> valid_utf8(bytes@),
        r matches Some(s) ==> s@ == decode_utf8(bytes@),
{
    String::from_utf8(bytes).ok()
}

/// Reads a string at `pos`.
pub fn read_string(b: &[u8], pos: usize) -> (r: Step<String>)
    requires
        pos <= b@.len(),
    ensures
        match r {
            Step::Got(value, end) => parse_string(b@, pos as int) == (Parsed::Got {
                value: value@,
                end: end as int,
            }),
            Step::More(n) => parse_string(b@, pos as int) == Parsed::<Seq<char>>::More(n as int),
            Step::Bad(end) => parse_string(b@, pos as int) == Parsed::<Seq<char>>::Bad(end as int),
        },
{
    match read_blob(b, pos) {
        Step::Got(bytes, end) => match string_from_utf8(bytes) {
            Some(s) => Step::Got(s, end),
            None => Step::Bad(end),
        },
        Step::More(n) => Step::More(n),
        Step::Bad(end) => Step::Bad(end),
    }
}

/// The text of each string.
pub open spec fn texts(names: Seq<String>) -> Seq<Seq<char>> {
    Seq::new(names.len(), |i: int| names[i]@)
}

/// The same texts again.
pub fn copy_texts(names: &Vec<String>) -> (copy: Vec<String>)
    ensures
        texts(copy@) == texts(names@),
{
    let mut copy: Vec<String> = Vec::new();
    let mut i: usize = 0;
    while i < names.len()
        invariant
            i <= names@.len(),
            copy@ == names@.take(i as int),
        decreases names@.len() - i,
    {
        copy.push(names[i].clone());
        assert(copy@ =~= names@.take(i + 1));
        i += 1;
    }
    assert(copy@ =~= names@);
    copy
}

/// Once strings fail to be read, no further string is.
pub proof fn lemma_strings_stop(b: Seq<u8>, pos: int, count: nat, more: nat)
    requires
        count <= more,
        !(parse_strings(b, pos, count) is Got),
    ensures
        parse_strings(b, pos, more) == parse_strings(b, pos, count),
    decreases more,
{
    if count < more {
        lemma_strings_stop(b, pos, count, (more - 1) as nat);
    }
}

/// Reads `count` strings at `pos`.
pub fn read_strings(b: &[u8], pos: usize, count: u32) -> (r: Step<Vec<String>>)
    requires
        pos <= b@.len(),
    ensures
        match r {
            Step::Got(names, end) => parse_strings(b@, pos as int, count as nat) == (Parsed::Got {
                value: texts(names@),
                end: end as int,
            }),
            Step::More(n) => parse_strings(b@, pos as int, count as nat) == Parsed::<
                Seq<Seq<char>>,
            >::More(n as int),
            Step::Bad(end) => parse_strings(b@, pos as int, count as nat) == Parsed::<
                Seq<Seq<char>>,
            >::Bad(end as int),
        },
{
    let mut names: Vec<String> = Vec::new();
    let mut at: usize = pos;
    let mut i: u32 = 0;
    assert(texts(names@) =~= seq![]);
    while i < count
        invariant
            i <= count,
            at <= b@.len(),
            parse_strings(b@, pos as int, i as nat) == (Parsed::Got {
                value: texts(names@),
                end: at as int,
            }),
        decreases count - i,
    {
        let step = read_string(b, at);
        proof {
            if !(parse_strings(b@, pos as int, (i + 1) as nat) is Got) {
                lemma_strings_stop(b@, pos as int, (i + 1) as nat, count as nat);
            }
        }
        match step {
            Step::Got(name, end) => {
                let ghost had = texts(names@);
                names.push(name);
                assert(texts(names@) =~= had.push(name@));
                at = end;
            },
            Step::More(n) => {
                return Step::More(n);
            },
            Step::Bad(end) => {
                return Step::Bad(end);
            },
        }
        i += 1;
    }
    Step::Got(names, at)
}

/// Reads the samples whose bytes stand in `b` from `pos` to `end`.
pub fn read_samples(b: &[u8], pos: usize, end: usize) -> (r: Vec<u32>)
    requires
        pos <= end <= b@.len(),
        (end - pos) % 4 == 0,
    ensures
        r@ == samples_of(b@.subrange(pos as int, end as int)),
{
    let ghost part = b@.subrange(pos as int, end as int);
    let mut out: Vec<u32> = Vec::new();
    let mut at: usize = pos;
    while at < end
        invariant
            pos <= at <= end <= b@.len(),
            (end - pos) % 4 == 0,
            at - pos == 4 * out@.len(),
            part == b@.subrange(pos as int, end as int),
            forall|i: int|
                0 <= i < out@.len() ==> out@[i] == le32_value(part.subrange(4 * i, 4 * i + 4)),
        decreases end - at,
    {
        assert(at + 4 <= end);
        match read_u32(b, at) {
            Step::Got(x, next) => {
                let ghost k = out@.len() as int;
                assert(part.subrange(4 * k, 4 * k + 4) =~= b@.subrange(at as int, at + 4));
                out.push(x);
                at = next;
            },
            Step::More(_) => {
                return out;
            },
            Step::Bad(_) => {
                return out;
            },
        }
    }
    reveal(samples_of);
    assert(out@ =~= samples_of(part));
    out
}

} // verus!
