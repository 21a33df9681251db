//! What goes over the pipes, byte by byte: the requests and the answers as the protocol lays them out.
use vstd::prelude::*;
use vstd::utf8::encode_utf8;
use crate::bytes::{
    le32, le32_value, lemma_le32_len, lemma_le32_value_le32, lemma_samples_len, samples_bytes,
    samples_of,
};
use crate::chain::{ask_for_chain, blobs, chain_stages};
use crate::error::{Error, ErrorView};
use crate::frame::{
    blob_bytes, read_blob, read_samples, read_string, read_u32, string_bytes, texts,
    write_blob, write_samples, write_string, write_u32, Step,
};
use crate::protocol::{
    request_bytes, stage_bytes, stage_views, stages_bytes, Awaiting, Request, StageSpec, StageView,
};
use crate::tags;
use crate::worker::{Session, Worker};

verus! {

broadcast use {lemma_le32_len, lemma_samples_len};

/// Whether the number `x` stands at `at`, in four bytes, the least significant first.
pub open spec fn number_at(b: Seq<u8>, at: int, x: int) -> bool {
    &&& 0 <= at <= b.len() - 4
    &&& x == b[at] + 256 * b[at + 1] + 65536 * b[at + 2] + 16777216 * b[at + 3]
}

/// Whether these bytes stand at `at`.
pub open spec fn bytes_at(b: Seq<u8>, at: int, part: Seq<u8>) -> bool {
    &&& 0 <= at <= b.len() - part.len()
    &&& forall|i: int| 0 <= i < part.len() ==> b[at + i] == #[trigger] part[i]
}

/// Whether a blob stands at `at`: its length, then its bytes.
pub open spec fn blob_at(b: Seq<u8>, at: int, blob: Seq<u8>) -> bool {
    number_at(b, at, blob.len() as int) && bytes_at(b, at + 4, blob)
}

/// Whether a text stands at `at`: the length of its UTF-8 bytes, then these.
pub open spec fn text_at(b: Seq<u8>, at: int, text: Seq<char>) -> bool {
    blob_at(b, at, encode_utf8(text))
}

/// Whether these samples stand at `at`, four bytes each.
pub open spec fn samples_at(b: Seq<u8>, at: int, samples: Seq<u32>) -> bool {
    forall|i: int| 0 <= i < samples.len() ==> number_at(b, at + 4 * i, #[trigger] samples[i] as int)
}

/// Whether a message opens with these four letters, given by their numbers.
pub open spec fn opens_with(b: Seq<u8>, l0: u8, l1: u8, l2: u8, l3: u8) -> bool {
    b.len() >= 4 && b[0] == l0 && b[1] == l1 && b[2] == l2 && b[3] == l3
}

proof fn lemma_four_bytes(b0: u8, b1: u8, b2: u8, b3: u8, x: u32)
    by (bit_vector)
    requires
        x == b0 + 256 * b1 + 65536 * b2 + 16777216 * b3,
    ensures
        x % 256 == b0,
        x / 256 % 256 == b1,
        x / 65536 % 256 == b2,
        x / 16777216 == b3,
{
}

pub proof fn lemma_number_at(b: Seq<u8>, at: int, x: u32)
    requires
        0 <= at <= b.len() - 4,
    ensures
        number_at(b, at, x as int) <==> b.subrange(at, at + 4) == le32(x),
        le32_value(b.subrange(at, at + 4)) == b[at] + 256 * b[at + 1] + 65536 * b[at + 2] + 16777216
            * b[at + 3],
{
    let w = b.subrange(at, at + 4);
    assert(w[0] == b[at] && w[1] == b[at + 1] && w[2] == b[at + 2] && w[3] == b[at + 3]);
    assert(le32_value(w) == w[0] + 256 * w[1] + 65536 * w[2] + 16777216 * w[3]) by {
        reveal(le32_value);
    }
    if number_at(b, at, x as int) {
        lemma_four_bytes(w[0], w[1], w[2], w[3], x);
        assert(w =~= le32(x)) by {
            reveal(le32);
        }
    } else if w == le32(x) {
        lemma_le32_value_le32(x);
    }
}

proof fn lemma_number_within(before: Seq<u8>, x: u32, after: Seq<u8>)
    ensures
        number_at(before + le32(x) + after, before.len() as int, x as int),
{
    let b = before + le32(x) + after;
    let at = before.len() as int;
    assert(b.subrange(at, at + 4) =~= le32(x));
    lemma_number_at(b, at, x);
}

proof fn lemma_blob_within(before: Seq<u8>, blob: Seq<u8>, after: Seq<u8>)
    requires
        blob.len() <= u32::MAX,
    ensures
        blob_at(before + blob_bytes(blob) + after, before.len() as int, blob),
{
    let b = before + blob_bytes(blob) + after;
    lemma_number_within(before, blob.len() as u32, blob + after);
    assert(b =~= before + le32(blob.len() as u32) + (blob + after));
}

proof fn lemma_samples_within(before: Seq<u8>, samples: Seq<u32>, after: Seq<u8>)
    ensures
        samples_at(before + samples_bytes(samples) + after, before.len() as int, samples),
{
    let s = samples_bytes(samples);
    let b = before + s + after;
    assert forall|i: int| 0 <= i < samples.len() implies number_at(
        b,
        before.len() + 4 * i,
        #[trigger] samples[i] as int,
    ) by {
        let at = before.len() + 4 * i;
        let w = le32(samples[i]);
        assert(s[4 * i] == w[0] && s[4 * i + 1] == w[1] && s[4 * i + 2] == w[2] && s[4 * i + 3]
            == w[3]) by {
            reveal(samples_bytes);
        }
        assert(b[at] == s[4 * i] && b[at + 1] == s[4 * i + 1] && b[at + 2] == s[4 * i + 2] && b[at
            + 3] == s[4 * i + 3]);
        assert(b.subrange(at, at + 4) =~= w);
        lemma_number_at(b, at, samples[i]);
    }
}

/// A blob that stands at the end is all that stands there.
pub proof fn lemma_blob_is(b: Seq<u8>, at: int, blob: Seq<u8>)
    requires
        blob_at(b, at, blob),
        at + 4 + blob.len() == b.len(),
    ensures
        b == b.take(at) + blob_bytes(blob),
        blob.len() <= u32::MAX,
{
    lemma_number_at(b, at, blob.len() as u32);
    assert(b.subrange(at, at + 4) == le32(blob.len() as u32));
    assert(b =~= b.take(at) + (b.subrange(at, at + 4) + blob));
}

/// A number written to a message stands behind what was there.
pub proof fn law_number_is_written(out: &mut Vec<u8>, x: u32)
    requires
        call_ensures(write_u32, (out, x), ()),
    ensures
        final(out)@.len() == old(out)@.len() + 4,
        bytes_at(final(out)@, 0, old(out)@),
        number_at(final(out)@, old(out)@.len() as int, x as int),
{
    lemma_number_within(old(out)@, x, seq![]);
    assert(old(out)@ + le32(x) + seq![] =~= final(out)@);
}

/// A blob written to a message stands behind what was there.
pub proof fn law_blob_is_written(out: &mut Vec<u8>, blob: &[u8])
    requires
        call_ensures(write_blob, (out, blob), ()),
        blob@.len() <= u32::MAX,
    ensures
        final(out)@.len() == old(out)@.len() + 4 + blob@.len(),
        bytes_at(final(out)@, 0, old(out)@),
        blob_at(final(out)@, old(out)@.len() as int, blob@),
{
    lemma_blob_within(old(out)@, blob@, seq![]);
    assert(old(out)@ + blob_bytes(blob@) + seq![] =~= final(out)@);
}

/// A text written to a message stands behind what was there.
pub proof fn law_text_is_written(out: &mut Vec<u8>, s: &str)
    requires
        call_ensures(write_string, (out, s), ()),
        encode_utf8(s@).len() <= u32::MAX,
    ensures
        final(out)@.len() == old(out)@.len() + 4 + encode_utf8(s@).len(),
        bytes_at(final(out)@, 0, old(out)@),
        text_at(final(out)@, old(out)@.len() as int, s@),
{
    lemma_blob_within(old(out)@, encode_utf8(s@), seq![]);
    assert(old(out)@ + string_bytes(s@) + seq![] =~= final(out)@);
}

/// Samples written to a message stand behind what was there.
pub proof fn law_samples_are_written(out: &mut Vec<u8>, samples: &[u32])
    requires
        call_ensures(write_samples, (out, samples), ()),
    ensures
        final(out)@.len() == old(out)@.len() + 4 * samples@.len(),
        bytes_at(final(out)@, 0, old(out)@),
        samples_at(final(out)@, old(out)@.len() as int, samples@),
{
    lemma_samples_within(old(out)@, samples@, seq![]);
    assert(old(out)@ + samples_bytes(samples@) + seq![] =~= final(out)@);
}

/// A number is read as it stands, if it is all there.
pub proof fn law_number_is_read(b: &[u8], at: usize, r: Step<u32>)
    requires
        call_ensures(read_u32, (b, at), r),
        at <= b@.len(),
    ensures
        at + 4 <= b@.len() ==> (r matches Step::Got(x, end) && number_at(b@, at as int, x as int)
            && end == at + 4),
        at + 4 > b@.len() ==> (r matches Step::More(n) && n == at + 4 - b@.len()),
{
    if at + 4 <= b@.len() {
        lemma_number_at(b@, at as int, 0);
    }
}

/// A blob is read as it stands, if it is all there.
pub proof fn law_blob_is_read(b: &[u8], at: usize, r: Step<Vec<u8>>, blob: Seq<u8>)
    requires
        call_ensures(read_blob, (b, at), r),
        blob_at(b@, at as int, blob),
    ensures
        r matches Step::Got(value, end) && value@ == blob && end == at + 4 + blob.len(),
{
    lemma_number_at(b@, at as int, 0);
    assert(b@.subrange(at + 4, at + 4 + blob.len()) =~= blob);
}

/// A text is read as it stands, if it is all there.
pub proof fn law_text_is_read(b: &[u8], at: usize, r: Step<String>, text: Seq<char>)
    requires
        call_ensures(read_string, (b, at), r),
        text_at(b@, at as int, text),
    ensures
        r matches Step::Got(value, end) && value@ == text && end == at + 4 + encode_utf8(text).len(),
{
    let bytes = encode_utf8(text);
    lemma_number_at(b@, at as int, 0);
    assert(b@.subrange(at + 4, at + 4 + bytes.len()) =~= bytes);
    vstd::utf8::encode_utf8_valid_utf8(text);
    vstd::utf8::encode_utf8_decode_utf8(text);
}

/// Samples are read as they stand.
pub proof fn law_samples_are_read(b: &[u8], at: usize, end: usize, r: Vec<u32>)
    requires
        call_ensures(read_samples, (b, at, end), r),
        at <= end <= b@.len(),
        (end - at) % 4 == 0,
    ensures
        4 * r@.len() == end - at,
        samples_at(b@, at as int, r@),
{
    reveal(samples_of);
    let part = b@.subrange(at as int, end as int);
    assert forall|i: int| 0 <= i < r@.len() implies number_at(
        b@,
        at + 4 * i,
        #[trigger] r@[i] as int,
    ) by {
        assert(part.subrange(4 * i, 4 * i + 4) =~= b@.subrange(at + 4 * i, at + 4 * i + 4));
        lemma_number_at(b@, at + 4 * i, 0);
    }
}

/// What a request came to, as far as it does not hang on the request: to a dead worker nothing is
/// sent; to a live one the bytes are, and the session waits for this answer and is otherwise as it
/// was.
pub open spec fn went_out(
    before: Session,
    after: Session,
    r: Result<Vec<u8>, Error>,
    awaiting: Awaiting,
) -> bool {
    if before.gone {
        (r matches Err(e) && e@ == ErrorView::WorkerGone) && after == before
    } else {
        &&& r is Ok
        &&& !after.gone
        &&& after.awaiting == Some(awaiting)
        &&& after.received.len() == 0
        &&& after.channels == before.channels
        &&& after.output == before.output
    }
}

/// A request that is not sent for its length leaves the session as it was.
pub open spec fn held_back(before: Session, after: Session, r: Result<Vec<u8>, Error>) -> bool {
    &&& after == before
    &&& r matches Err(e) && e@ == (if before.gone {
        ErrorView::WorkerGone
    } else {
        ErrorView::TooLong
    })
}

/// `RST ` alone; an acknowledgement is awaited.
pub proof fn law_reset_request(w: &mut Worker, r: Result<Vec<u8>, Error>)
    requires
        call_ensures(Worker::reset, (w,), r),
    ensures
        went_out(old(w)@, final(w)@, r, Awaiting::Ack),
        r matches Ok(b) ==> b@.len() == 4 && opens_with(b@, 0x52, 0x53, 0x54, 0x20),
{
}

/// `FLSH` alone; audio is awaited, kept by the session or handed over.
pub proof fn law_drain_request(
    w: &mut Worker,
    r: Result<Vec<u8>, Error>,
    v: &mut Worker,
    q: Result<Vec<u8>, Error>,
)
    requires
        call_ensures(Worker::drain, (w,), r),
        call_ensures(Worker::drain_into, (v,), q),
    ensures
        went_out(old(w)@, final(w)@, r, Awaiting::Audio),
        went_out(old(v)@, final(v)@, q, Awaiting::AudioInto),
        r matches Ok(b) ==> b@.len() == 4 && opens_with(b@, 0x46, 0x4C, 0x53, 0x48),
        q matches Ok(b) ==> b@.len() == 4 && opens_with(b@, 0x46, 0x4C, 0x53, 0x48),
{
}

/// `QUIT` alone.
pub proof fn law_quit_request(w: Worker, b: Vec<u8>)
    requires
        call_ensures(Worker::quit, (w,), b),
    ensures
        b@.len() == 4,
        opens_with(b@, 0x51, 0x55, 0x49, 0x54),
{
}

/// `CFG ` and the stage's number; a preset is awaited.
pub proof fn law_configure_request(w: &mut Worker, stage: u32, r: Result<Vec<u8>, Error>)
    requires
        call_ensures(Worker::configure, (w, stage), r),
    ensures
        went_out(old(w)@, final(w)@, r, Awaiting::Preset),
        r matches Ok(b) ==> b@.len() == 8 && opens_with(b@, 0x43, 0x46, 0x47, 0x20) && number_at(
            b@,
            4,
            stage as int,
        ),
{
    if let Ok(b) = r {
        lemma_number_within(tags::CFG@, stage, seq![]);
        assert(tags::CFG@ + le32(stage) + seq![] =~= tags::CFG@ + le32(stage));
    }
}

/// `GPRE` and the stage's number; a preset is awaited.
pub proof fn law_get_preset_request(w: &mut Worker, stage: u32, r: Result<Vec<u8>, Error>)
    requires
        call_ensures(Worker::get_preset, (w, stage), r),
    ensures
        went_out(old(w)@, final(w)@, r, Awaiting::Preset),
        r matches Ok(b) ==> b@.len() == 8 && opens_with(b@, 0x47, 0x50, 0x52, 0x45) && number_at(
            b@,
            4,
            stage as int,
        ),
{
    if let Ok(b) = r {
        lemma_number_within(tags::GPRE@, stage, seq![]);
        assert(tags::GPRE@ + le32(stage) + seq![] =~= tags::GPRE@ + le32(stage));
    }
}

/// `SPRE`, the stage's number and the blob, byte for byte; an acknowledgement is awaited.
pub proof fn law_set_preset_request(
    w: &mut Worker,
    stage: u32,
    blob: &[u8],
    r: Result<Vec<u8>, Error>,
)
    requires
        call_ensures(Worker::set_preset, (w, stage, blob), r),
    ensures
        if blob@.len() < 0x1_0000_0000 {
            &&& went_out(old(w)@, final(w)@, r, Awaiting::Ack)
            &&& r matches Ok(b) ==> b@.len() == 12 + blob@.len() && opens_with(
                b@,
                0x53,
                0x50,
                0x52,
                0x45,
            ) && number_at(b@, 4, stage as int) && blob_at(b@, 8, blob@)
        } else {
            held_back(old(w)@, final(w)@, r)
        },
{
    if let Ok(b) = r {
        let head = tags::SPRE@ + le32(stage);
        lemma_number_within(tags::SPRE@, stage, blob_bytes(blob@));
        lemma_blob_within(head, blob@, seq![]);
        assert(head + blob_bytes(blob@) + seq![] =~= head + blob_bytes(blob@));
    }
}

/// `PROC`, the number of frames and the samples, bit for bit; audio is awaited, kept by the session
/// or handed over. There are as many samples as frames times channels.
pub proof fn law_process_request(
    w: &mut Worker,
    samples: &[u32],
    r: Result<Vec<u8>, Error>,
    v: &mut Worker,
    q: Result<Vec<u8>, Error>,
    frames: int,
)
    requires
        call_ensures(Worker::process, (w, samples), r),
        call_ensures(Worker::process_into, (v, samples), q),
        old(v)@ == old(w)@,
        old(w)@.channels >= 1,
        samples@.len() == frames * old(w)@.channels,
        0 <= frames < 0x1_0000_0000,
    ensures
        went_out(old(w)@, final(w)@, r, Awaiting::Audio),
        went_out(old(v)@, final(v)@, q, Awaiting::AudioInto),
        r matches Ok(b) ==> b@.len() == 8 + 4 * samples@.len() && opens_with(
            b@,
            0x50,
            0x52,
            0x4F,
            0x43,
        ) && number_at(b@, 4, frames) && samples_at(b@, 8, samples@),
        q is Ok <==> r is Ok,
        q matches Ok(b) ==> b@ == r->Ok_0@,
{
    let c = old(w)@.channels as int;
    assert(samples@.len() as int / c == frames) by {
        vstd::arithmetic::div_mod::lemma_div_multiples_vanish(frames, c);
        vstd::arithmetic::mul::lemma_mul_is_commutative(frames, c);
    }
    if let Ok(b) = r {
        let f = frames as u32;
        let head = tags::PROC@ + le32(f);
        lemma_number_within(tags::PROC@, f, samples_bytes(samples@));
        lemma_samples_within(head, samples@, seq![]);
        assert(head + samples_bytes(samples@) + seq![] =~= head + samples_bytes(samples@));
    }
}

/// `LOAD`, the path, the rate, the channels and the entry; the name of the one stage is awaited.
pub proof fn law_load_request(
    w: &mut Worker,
    dll: &str,
    rate: u32,
    channels: u32,
    entry: u32,
    r: Result<Vec<u8>, Error>,
)
    requires
        call_ensures(Worker::load_single, (w, dll, rate, channels, entry), r),
    ensures
        ({
            let n = encode_utf8(dll@).len() as int;
            if n < 0x1_0000_0000 {
                &&& went_out(old(w)@, final(w)@, r, Awaiting::Load { channels })
                &&& r matches Ok(b) ==> b@.len() == 20 + n && opens_with(
                    b@,
                    0x4C,
                    0x4F,
                    0x41,
                    0x44,
                ) && text_at(b@, 4, dll@) && number_at(b@, 8 + n, rate as int) && number_at(
                    b@,
                    12 + n,
                    channels as int,
                ) && number_at(b@, 16 + n, entry as int)
            } else {
                held_back(old(w)@, final(w)@, r)
            }
        }),
{
    if let Ok(b) = r {
        let t = tags::LOAD@;
        let d = string_bytes(dll@);
        let (x, y, z) = (le32(rate), le32(channels), le32(entry));
        lemma_blob_within(t, encode_utf8(dll@), x + y + z);
        assert(b@ =~= t + d + (x + y + z));
        lemma_number_within(t + d, rate, y + z);
        assert(b@ =~= (t + d) + x + (y + z));
        lemma_number_within(t + d + x, channels, z);
        lemma_number_within(t + d + x + y, entry, seq![]);
        assert(b@ =~= (t + d + x + y) + z + seq![]);
    }
}

/// Where the stage numbered `i` stands in a `CHAN` message: behind the tag, three numbers and the
/// stages before it, each of them a path, a number and a preset.
pub open spec fn stage_start(stages: Seq<StageView>, i: int) -> int
    decreases i,
{
    if i <= 0 {
        16
    } else {
        stage_start(stages, i - 1) + 12 + encode_utf8(stages[i - 1].dll).len() + stages[i
            - 1].preset.len()
    }
}

/// Whether a stage stands at `at`: its path, the number of its entry, its preset.
#[verifier::opaque]
pub open spec fn stage_at(b: Seq<u8>, at: int, stage: StageView) -> bool {
    let n = encode_utf8(stage.dll).len();
    text_at(b, at, stage.dll) && number_at(b, at + 4 + n, stage.entry_index as int) && blob_at(
        b,
        at + 8 + n,
        stage.preset,
    )
}

proof fn lemma_stage_within(before: Seq<u8>, stage: StageView, after: Seq<u8>)
    requires
        encode_utf8(stage.dll).len() <= u32::MAX,
        stage.preset.len() <= u32::MAX,
    ensures
        stage_at(before + stage_bytes(stage) + after, before.len() as int, stage),
        stage_bytes(stage).len() == 12 + encode_utf8(stage.dll).len() + stage.preset.len(),
{
    reveal(stage_at);
    let b = before + stage_bytes(stage) + after;
    let d = string_bytes(stage.dll);
    let e = le32(stage.entry_index);
    let p = blob_bytes(stage.preset);
    lemma_blob_within(before, encode_utf8(stage.dll), e + p + after);
    assert(b =~= before + d + (e + p + after));
    lemma_number_within(before + d, stage.entry_index, p + after);
    assert(b =~= (before + d) + e + (p + after));
    lemma_blob_within(before + d + e, stage.preset, after);
    assert(b =~= (before + d + e) + p + after);
}

proof fn lemma_stage_start(stages: Seq<StageView>, fewer: Seq<StageView>, i: int)
    requires
        0 <= i <= fewer.len() <= stages.len(),
        fewer == stages.take(fewer.len() as int),
    ensures
        stage_start(stages, i) == stage_start(fewer, i),
    decreases i,
{
    if i > 0 {
        lemma_stage_start(stages, fewer, i - 1);
        assert(fewer[i - 1] == stages[i - 1]);
    }
}

proof fn lemma_regroup(a: Seq<u8>, b: Seq<u8>, c: Seq<u8>, d: Seq<u8>)
    ensures
        a + (b + c) + d == a + b + (c + d),
        a + (b + c) + d == (a + b) + c + d,
        (a + b).len() == a.len() + b.len(),
        (b + c).len() == b.len() + c.len(),
{
    assert(a + (b + c) + d =~= a + b + (c + d));
    assert(a + (b + c) + d =~= (a + b) + c + d);
}

proof fn lemma_stages_within(before: Seq<u8>, stages: Seq<StageView>, after: Seq<u8>)
    requires
        before.len() == 16,
        forall|i: int|
            0 <= i < stages.len() ==> encode_utf8((#[trigger] stages[i]).dll).len() <= u32::MAX
                && stages[i].preset.len() <= u32::MAX,
    ensures
        forall|i: int|
            0 <= i < stages.len() ==> stage_at(
                before + stages_bytes(stages) + after,
                stage_start(stages, i),
                #[trigger] stages[i],
            ),
        stage_start(stages, stages.len() as int) == 16 + stages_bytes(stages).len(),
    decreases stages.len(),
{
    if stages.len() > 0 {
        let fewer = stages.drop_last();
        let last = stages.last();
        let n = fewer.len() as int;
        assert forall|i: int| 0 <= i < fewer.len() implies encode_utf8((#[trigger] fewer[i]).dll).len()
            <= u32::MAX && fewer[i].preset.len() <= u32::MAX by {
            assert(fewer[i] == stages[i]);
        }
        lemma_stages_within(before, fewer, stage_bytes(last) + after);
        let b = before + stages_bytes(stages) + after;
        let (x, y) = (stages_bytes(fewer), stage_bytes(last));
        assert(stages_bytes(stages) == x + y);
        lemma_regroup(before, x, y, after);
        lemma_stage_within(before + x, last, after);
        assert(fewer =~= stages.take(n));
        lemma_stage_start(stages, fewer, n);
        assert(stages[n] == last);
        assert forall|i: int| 0 <= i < stages.len() implies stage_at(
            b,
            stage_start(stages, i),
            #[trigger] stages[i],
        ) by {
            if i < n {
                assert(fewer[i] == stages[i]);
                lemma_stage_start(stages, fewer, i);
            }
        }
        assert(stage_start(stages, n + 1) == stage_start(stages, n) + 12 + encode_utf8(
            stages[n].dll,
        ).len() + stages[n].preset.len());
    }
}

/// `CHAN`, the rate, the channels, the number of stages, and then each stage in order; the names of
/// the stages are awaited. Where a path or a preset is too long for its length field, nothing is
/// sent.
pub proof fn law_chain_request(
    w: &mut Worker,
    rate: u32,
    channels: u32,
    stages: &[StageSpec],
    r: Result<Vec<u8>, Error>,
)
    requires
        call_ensures(Worker::build_chain, (w, rate, channels, stages), r),
        stages@.len() < 0x1_0000_0000,
    ensures
        ({
            let views = stages@.map_values(|s: StageSpec| s@);
            if forall|i: int|
                0 <= i < views.len() ==> encode_utf8((#[trigger] views[i]).dll).len()
                    < 0x1_0000_0000 && views[i].preset.len() < 0x1_0000_0000 {
                &&& went_out(old(w)@, final(w)@, r, Awaiting::Chain { channels })
                &&& r matches Ok(b) ==> is_chain_message(b@, rate, channels, views)
            } else {
                held_back(old(w)@, final(w)@, r)
            }
        }),
{
    let views = stages@.map_values(|s: StageSpec| s@);
    assert(stage_views(stages@) =~= views);
    let fit = forall|i: int|
        0 <= i < views.len() ==> encode_utf8((#[trigger] views[i]).dll).len() < 0x1_0000_0000
            && views[i].preset.len() < 0x1_0000_0000;
    assert(fit == crate::protocol::stages_fit(views)) by {
        if fit {
            assert forall|i: int| 0 <= i < views.len() implies crate::protocol::stage_fits(
                #[trigger] views[i],
            ) by {}
        }
        if crate::protocol::stages_fit(views) {
            assert forall|i: int| 0 <= i < views.len() implies encode_utf8(
                (#[trigger] views[i]).dll,
            ).len() < 0x1_0000_0000 && views[i].preset.len() < 0x1_0000_0000 by {
                assert(crate::protocol::stage_fits(views[i]));
            }
        }
    }
    if r is Ok {
        assert(fit);
        lemma_chain_layout(rate, channels, views);
    }
}

/// Whether a message is a `CHAN` of these stages: the tag, the rate, the channels, the number of
/// stages, and then each stage in order.
pub open spec fn is_chain_message(
    b: Seq<u8>,
    rate: u32,
    channels: u32,
    stages: Seq<StageView>,
) -> bool {
    &&& opens_with(b, 0x43, 0x48, 0x41, 0x4E)
    &&& number_at(b, 4, rate as int)
    &&& number_at(b, 8, channels as int)
    &&& number_at(b, 12, stages.len() as int)
    &&& forall|i: int|
        0 <= i < stages.len() ==> stage_at(b, stage_start(stages, i), #[trigger] stages[i])
    &&& b.len() == stage_start(stages, stages.len() as int)
}

proof fn lemma_chain_layout(rate: u32, channels: u32, views: Seq<StageView>)
    requires
        views.len() < 0x1_0000_0000,
        forall|i: int|
            0 <= i < views.len() ==> encode_utf8((#[trigger] views[i]).dll).len() < 0x1_0000_0000
                && views[i].preset.len() < 0x1_0000_0000,
    ensures
        is_chain_message(
            request_bytes(Request::Chain { sample_rate: rate, channels, stages: views }),
            rate,
            channels,
            views,
        ),
{
    let b = request_bytes(Request::Chain { sample_rate: rate, channels, stages: views });
    let t = tags::CHAN@;
    let (x, y, n) = (le32(rate), le32(channels), le32(views.len() as u32));
    let s = stages_bytes(views);
    assert(b == t + x + y + n + s);
    lemma_number_within(t, rate, y + n + s);
    assert(b =~= t + x + (y + n + s));
    lemma_number_within(t + x, channels, n + s);
    assert(b =~= (t + x) + y + (n + s));
    lemma_number_within(t + x + y, views.len() as u32, s);
    lemma_stages_within(t + x + y + n, views, seq![]);
    assert(b =~= (t + x + y + n) + s + seq![]);
}

/// The lab asks for its chain in stereo: each component's path with its first entry and its preset.
pub proof fn law_lab_chain_request(
    w: &mut Worker,
    rate: u32,
    paths: &[String],
    presets: &[Vec<u8>],
    r: Result<Vec<u8>, Error>,
    stages: Seq<StageView>,
)
    requires
        call_ensures(ask_for_chain, (w, rate, paths, presets), r),
        paths@.len() == presets@.len(),
        paths@.len() < 0x1_0000_0000,
        stages.len() == paths@.len(),
        forall|i: int|
            0 <= i < stages.len() ==> {
                &&& (#[trigger] stages[i]).dll == paths@[i]@
                &&& stages[i].entry_index == 0
                &&& stages[i].preset == presets@[i]@
                &&& encode_utf8(stages[i].dll).len() < 0x1_0000_0000
                &&& stages[i].preset.len() < 0x1_0000_0000
            },
    ensures
        went_out(old(w)@, final(w)@, r, Awaiting::Chain { channels: 2 }),
        r matches Ok(b) ==> is_chain_message(b@, rate, 2, stages),
{
    let made = chain_stages(texts(paths@), blobs(presets@));
    assert forall|i: int| 0 <= i < stages.len() implies made[i] == #[trigger] stages[i] by {
        assert(made[i].dll == stages[i].dll && made[i].preset == stages[i].preset);
    }
    assert(made =~= stages);
    assert forall|i: int| 0 <= i < stages.len() implies crate::protocol::stage_fits(
        #[trigger] stages[i],
    ) by {}
    assert(crate::protocol::stages_fit(stages));
    lemma_chain_layout(rate, 2, stages);
}

} // verus!
