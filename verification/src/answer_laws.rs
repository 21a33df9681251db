//! What an answer of the worker comes to, byte by byte, once the last of it has arrived.
use std::path::PathBuf;
use vstd::prelude::*;
use vstd::utf8::{encode_utf8, valid_utf8};
use crate::bytes::{le32, lemma_le32_len, lemma_samples_len, samples_bytes};
use crate::error::{Error, ErrorView, PeerInfo};
use crate::frame::{
    blob_bytes, lemma_read_blob, lemma_read_strings, lemma_strings_stop, parse_strings, string_bytes,
    strings_bytes, texts,
};
use crate::protocol::{law_message_read_back, message_bytes, Awaiting, Message, Outcome};
use crate::tags;
use crate::wire_laws::{
    blob_at, lemma_blob_is, lemma_number_at, number_at, opens_with, samples_at, text_at,
};
use crate::worker::{AnswerView, Progress, Session, SpawnOptions, SpawnPlan, Worker};

verus! {

broadcast use {lemma_le32_len, lemma_samples_len};

/// The session is ready for the next request, with this many channels; the rest is as it was.
pub open spec fn over(before: Session, after: Session, channels: u32) -> bool {
    &&& after.awaiting is None
    &&& after.received.len() == 0
    &&& after.gone == before.gone
    &&& after.channels == channels
}

/// The request succeeded with this answer.
pub open spec fn succeeded(progress: Progress, answer: AnswerView) -> bool {
    progress matches Progress::Over(Ok(a)) && a@ == answer
}

/// The request failed with this error.
pub open spec fn failed(progress: Progress, error: ErrorView) -> bool {
    progress matches Progress::Over(Err(e)) && e@ == error
}

proof fn lemma_samples_are(b: Seq<u8>, at: int, samples: Seq<u32>)
    requires
        0 <= at,
        samples_at(b, at, samples),
        b.len() == at + 4 * samples.len(),
    ensures
        b == b.take(at) + samples_bytes(samples),
{
    let s = samples_bytes(samples);
    assert forall|k: int| 0 <= k < s.len() implies #[trigger] s[k] == b[at + k] by {
        let i = k / 4;
        assert(number_at(b, at + 4 * i, samples[i] as int));
        lemma_number_at(b, at + 4 * i, samples[i]);
        let w = b.subrange(at + 4 * i, at + 4 * i + 4);
        assert(w[k % 4] == b[at + k]);
        reveal(samples_bytes);
    }
    assert(b =~= b.take(at) + s);
}

proof fn lemma_head(b: Seq<u8>, tag: Seq<u8>, x: u32)
    requires
        b.len() >= 8,
        tag.len() == 4,
        opens_with(b, tag[0], tag[1], tag[2], tag[3]),
        number_at(b, 4, x as int),
    ensures
        b.take(8) == tag + le32(x),
{
    lemma_number_at(b, 4, x);
    assert(b.subrange(4, 8) == le32(x));
    assert(b.take(8) =~= tag + b.subrange(4, 8));
}

/// Audio that the session keeps is exactly what the worker sent, whatever was kept before; audio
/// that is handed over is that too, and leaves what is kept alone.
pub proof fn law_audio_answer(
    w: &mut Worker,
    bytes: &[u8],
    progress: Progress,
    frames: u32,
    samples: Seq<u32>,
)
    requires
        call_ensures(Worker::feed, (w, bytes), progress),
        old(w)@.channels >= 1,
        old(w)@.awaiting == Some(Awaiting::Audio) || old(w)@.awaiting == Some(Awaiting::AudioInto),
        ({
            let b = old(w)@.received + bytes@;
            &&& opens_with(b, 0x50, 0x4F, 0x4B, 0x20)
            &&& number_at(b, 4, frames as int)
            &&& samples_at(b, 8, samples)
            &&& b.len() == 8 + 4 * samples.len()
        }),
        samples.len() == frames * old(w)@.channels,
    ensures
        over(old(w)@, final(w)@, old(w)@.channels),
        old(w)@.awaiting == Some(Awaiting::Audio) ==> final(w)@.output == samples && succeeded(
            progress,
            AnswerView::Frames(frames),
        ),
        old(w)@.awaiting == Some(Awaiting::AudioInto) ==> final(w)@.output == old(w)@.output
            && succeeded(progress, AnswerView::Audio(frames, samples)),
{
    let b = old(w)@.received + bytes@;
    lemma_head(b, tags::POK@, frames);
    lemma_samples_are(b, 8, samples);
    let message = Message::Audio { frames, samples };
    assert(b == message_bytes(message));
    law_message_read_back(message, old(w)@.awaiting->0, old(w)@.channels);
}

/// An acknowledgement is one.
pub proof fn law_ack_answer(w: &mut Worker, bytes: &[u8], progress: Progress)
    requires
        call_ensures(Worker::feed, (w, bytes), progress),
        old(w)@.awaiting == Some(Awaiting::Ack),
        opens_with(old(w)@.received + bytes@, 0x4F, 0x4B, 0x20, 0x20),
        (old(w)@.received + bytes@).len() == 4,
    ensures
        over(old(w)@, final(w)@, old(w)@.channels),
        final(w)@.output == old(w)@.output,
        succeeded(progress, AnswerView::Acked),
{
    let b = old(w)@.received + bytes@;
    assert(b =~= tags::OK@);
    law_message_read_back(Message::Ack, Awaiting::Ack, old(w)@.channels);
}

/// A preset is handed over byte for byte.
pub proof fn law_preset_answer(w: &mut Worker, bytes: &[u8], progress: Progress, blob: Seq<u8>)
    requires
        call_ensures(Worker::feed, (w, bytes), progress),
        old(w)@.awaiting == Some(Awaiting::Preset),
        opens_with(old(w)@.received + bytes@, 0x50, 0x52, 0x45, 0x20),
        blob_at(old(w)@.received + bytes@, 4, blob),
        (old(w)@.received + bytes@).len() == 8 + blob.len(),
    ensures
        over(old(w)@, final(w)@, old(w)@.channels),
        final(w)@.output == old(w)@.output,
        succeeded(progress, AnswerView::Preset(blob)),
{
    let b = old(w)@.received + bytes@;
    lemma_blob_is(b, 4, blob);
    assert(b.take(4) =~= tags::PRE@);
    law_message_read_back(Message::Preset(blob), Awaiting::Preset, old(w)@.channels);
}

/// The channels that a chain runs in: as many as were asked for, and one where none were.
pub open spec fn at_least(channels: u32) -> u32 {
    if channels >= 1 {
        channels
    } else {
        1
    }
}

/// The name of the one stage is what the worker says, whatever its status; the chain now runs in as
/// many channels as were asked for.
pub proof fn law_name_answer(
    w: &mut Worker,
    bytes: &[u8],
    progress: Progress,
    channels: u32,
    status: u32,
    name: Seq<char>,
)
    requires
        call_ensures(Worker::feed, (w, bytes), progress),
        old(w)@.awaiting == Some(Awaiting::Load { channels }),
        opens_with(old(w)@.received + bytes@, 0x4C, 0x4F, 0x4B, 0x20),
        number_at(old(w)@.received + bytes@, 4, status as int),
        text_at(old(w)@.received + bytes@, 8, name),
        (old(w)@.received + bytes@).len() == 12 + encode_utf8(name).len(),
    ensures
        over(old(w)@, final(w)@, at_least(channels)),
        final(w)@.output == old(w)@.output,
        succeeded(progress, AnswerView::Name(name)),
{
    let b = old(w)@.received + bytes@;
    lemma_head(b, tags::LOK@, status);
    lemma_blob_is(b, 8, encode_utf8(name));
    let message = Message::Loaded { status, name };
    assert(b == message_bytes(message));
    law_message_read_back(message, old(w)@.awaiting->0, old(w)@.channels);
}

/// Where the name numbered `i` stands in a `COK ` message.
pub open spec fn name_start(names: Seq<Seq<char>>, i: int) -> int
    decreases i,
{
    if i <= 0 {
        8
    } else {
        name_start(names, i - 1) + 4 + encode_utf8(names[i - 1]).len()
    }
}

proof fn lemma_name_start(names: Seq<Seq<char>>, i: int)
    requires
        0 <= i < names.len(),
    ensures
        name_start(names, i) == name_start(names.drop_last(), i),
    decreases i,
{
    if i > 0 {
        lemma_name_start(names, i - 1);
        assert(names.drop_last()[i - 1] == names[i - 1]);
    }
}

proof fn lemma_blob_in_front(b: Seq<u8>, at: int, blob: Seq<u8>, end: int)
    requires
        blob_at(b, at, blob),
        at + 4 + blob.len() <= end <= b.len(),
    ensures
        blob_at(b.take(end), at, blob),
{
    let head = b.take(end);
    assert forall|k: int| 0 <= k < blob.len() implies head[at + 4 + k] == #[trigger] blob[k] by {
        assert(b[at + 4 + k] == blob[k]);
    }
}

proof fn lemma_behind(b: Seq<u8>, at: int, x: Seq<u8>, y: Seq<u8>)
    requires
        8 <= at <= b.len(),
        b == b.take(at) + y,
        b.take(at) == b.take(at).take(8) + x,
    ensures
        b == b.take(8) + (x + y),
{
    assert(b.take(at).take(8) =~= b.take(8));
    assert(b.take(8) + x + y =~= b.take(8) + (x + y));
}

proof fn lemma_names_are(b: Seq<u8>, names: Seq<Seq<char>>)
    requires
        forall|i: int|
            0 <= i < names.len() ==> text_at(b, name_start(names, i), #[trigger] names[i]),
        b.len() == name_start(names, names.len() as int),
        b.len() >= 8,
    ensures
        b == b.take(8) + strings_bytes(names),
        forall|i: int| 0 <= i < names.len() ==> encode_utf8(#[trigger] names[i]).len() <= u32::MAX,
    decreases names.len(),
{
    if names.len() == 0 {
        assert(b =~= b.take(8) + strings_bytes(names));
    } else {
        let n = names.len() - 1;
        let fewer = names.drop_last();
        let at = name_start(names, n);
        let head = b.take(at);
        assert(names[n] == names.last());
        assert(text_at(b, at, names[n]));
        lemma_blob_is(b, at, encode_utf8(names[n]));
        lemma_name_start(names, n);
        lemma_names_bound(names, n);
        assert forall|i: int| 0 <= i < fewer.len() implies text_at(
            head,
            name_start(fewer, i),
            #[trigger] fewer[i],
        ) by {
            assert(fewer[i] == names[i]);
            lemma_name_start(names, i);
            assert(text_at(b, name_start(names, i), names[i]));
            lemma_names_order(names, i + 1, n);
            lemma_blob_in_front(b, name_start(names, i), encode_utf8(names[i]), at);
        }
        lemma_names_are(head, fewer);
        assert forall|i: int| 0 <= i < names.len() implies encode_utf8(#[trigger] names[i]).len()
            <= u32::MAX by {
            if i < n {
                assert(fewer[i] == names[i]);
            }
        }
        assert(b == head + string_bytes(names[n]));
        assert(strings_bytes(names) == strings_bytes(fewer) + string_bytes(names[n]));
        lemma_behind(b, at, strings_bytes(fewer), string_bytes(names[n]));
    }
}

proof fn lemma_names_bound(names: Seq<Seq<char>>, i: int)
    ensures
        name_start(names, i) >= 8,
    decreases i,
{
    if i > 0 {
        lemma_names_bound(names, i - 1);
    }
}

proof fn lemma_names_order(names: Seq<Seq<char>>, i: int, j: int)
    requires
        i <= j,
    ensures
        name_start(names, i) <= name_start(names, j),
        i > 0 ==> name_start(names, i) == name_start(names, i - 1) + 4 + encode_utf8(
            names[i - 1],
        ).len(),
    decreases j - i,
{
    if i < j {
        lemma_names_order(names, i, j - 1);
    }
}

/// The names of the stages are what the worker says, in order; the chain now runs in as many
/// channels as were asked for.
pub proof fn law_names_answer(
    w: &mut Worker,
    bytes: &[u8],
    progress: Progress,
    channels: u32,
    names: Seq<Seq<char>>,
)
    requires
        call_ensures(Worker::feed, (w, bytes), progress),
        old(w)@.awaiting == Some(Awaiting::Chain { channels }),
        ({
            let b = old(w)@.received + bytes@;
            &&& opens_with(b, 0x43, 0x4F, 0x4B, 0x20)
            &&& number_at(b, 4, names.len() as int)
            &&& forall|i: int|
                0 <= i < names.len() ==> text_at(b, name_start(names, i), #[trigger] names[i])
            &&& b.len() == name_start(names, names.len() as int)
        }),
    ensures
        over(old(w)@, final(w)@, at_least(channels)),
        final(w)@.output == old(w)@.output,
        succeeded(progress, AnswerView::Names(names)),
{
    let b = old(w)@.received + bytes@;
    lemma_names_bound(names, names.len() as int);
    lemma_head(b, tags::COK@, names.len() as u32);
    lemma_names_are(b, names);
    let message = Message::Chain(names);
    assert(b == message_bytes(message));
    law_message_read_back(message, old(w)@.awaiting->0, old(w)@.channels);
}

/// Whatever was asked, `ERR ` fails it with the worker's own text, and the session goes on as it was.
pub proof fn law_refused(w: &mut Worker, bytes: &[u8], progress: Progress, text: Seq<char>)
    requires
        call_ensures(Worker::feed, (w, bytes), progress),
        old(w)@.awaiting is Some,
        opens_with(old(w)@.received + bytes@, 0x45, 0x52, 0x52, 0x20),
        text_at(old(w)@.received + bytes@, 4, text),
        (old(w)@.received + bytes@).len() == 8 + encode_utf8(text).len(),
    ensures
        over(old(w)@, final(w)@, old(w)@.channels),
        final(w)@.output == old(w)@.output,
        failed(progress, ErrorView::Remote(text)),
{
    let b = old(w)@.received + bytes@;
    lemma_blob_is(b, 4, encode_utf8(text));
    assert(b.take(4) =~= tags::ERR@);
    law_message_read_back(Message::Failed(text), old(w)@.awaiting->0, old(w)@.channels);
}

/// `ERR ` with a text that is not UTF-8 fails the request for that.
pub proof fn law_refused_in_no_text(w: &mut Worker, bytes: &[u8], progress: Progress, blob: Seq<u8>)
    requires
        call_ensures(Worker::feed, (w, bytes), progress),
        old(w)@.awaiting is Some,
        opens_with(old(w)@.received + bytes@, 0x45, 0x52, 0x52, 0x20),
        blob_at(old(w)@.received + bytes@, 4, blob),
        (old(w)@.received + bytes@).len() == 8 + blob.len(),
        !valid_utf8(blob),
    ensures
        over(old(w)@, final(w)@, old(w)@.channels),
        final(w)@.output == old(w)@.output,
        failed(progress, ErrorView::InvalidUtf8),
{
    let b = old(w)@.received + bytes@;
    lemma_blob_is(b, 4, blob);
    assert(b.take(4) =~= tags::ERR@);
    lemma_read_blob(tags::ERR@, blob, seq![]);
    assert(tags::ERR@ + blob_bytes(blob) + seq![] =~= b);
    assert(tags::ERR@[0] == 0x45);
}

/// A stage's name that is not UTF-8 fails the request for that, and the channels stay.
pub proof fn law_name_in_no_text(
    w: &mut Worker,
    bytes: &[u8],
    progress: Progress,
    status: u32,
    blob: Seq<u8>,
)
    requires
        call_ensures(Worker::feed, (w, bytes), progress),
        old(w)@.awaiting is Some,
        old(w)@.awaiting->0 is Load,
        opens_with(old(w)@.received + bytes@, 0x4C, 0x4F, 0x4B, 0x20),
        number_at(old(w)@.received + bytes@, 4, status as int),
        blob_at(old(w)@.received + bytes@, 8, blob),
        (old(w)@.received + bytes@).len() == 12 + blob.len(),
        !valid_utf8(blob),
    ensures
        over(old(w)@, final(w)@, old(w)@.channels),
        final(w)@.output == old(w)@.output,
        failed(progress, ErrorView::InvalidUtf8),
{
    let b = old(w)@.received + bytes@;
    assert(b.take(4) =~= tags::LOK@);
    lemma_number_at(b, 4, status);
    lemma_blob_is(b, 8, blob);
    lemma_read_blob(b.take(8), blob, seq![]);
    assert(b.take(8) + blob_bytes(blob) + seq![] =~= b);
}

/// So does one among the names of a chain, as soon as it has arrived: the others behind it are not
/// read.
pub proof fn law_names_in_no_text(
    w: &mut Worker,
    bytes: &[u8],
    progress: Progress,
    count: u32,
    names: Seq<Seq<char>>,
    blob: Seq<u8>,
)
    requires
        call_ensures(Worker::feed, (w, bytes), progress),
        old(w)@.awaiting is Some,
        old(w)@.awaiting->0 is Chain,
        names.len() < count,
        !valid_utf8(blob),
        ({
            let b = old(w)@.received + bytes@;
            let at = name_start(names, names.len() as int);
            &&& opens_with(b, 0x43, 0x4F, 0x4B, 0x20)
            &&& number_at(b, 4, count as int)
            &&& forall|i: int|
                0 <= i < names.len() ==> text_at(b, name_start(names, i), #[trigger] names[i])
            &&& blob_at(b, at, blob)
            &&& b.len() == at + 4 + blob.len()
        }),
    ensures
        over(old(w)@, final(w)@, old(w)@.channels),
        final(w)@.output == old(w)@.output,
        failed(progress, ErrorView::InvalidUtf8),
{
    let b = old(w)@.received + bytes@;
    let n = names.len() as int;
    let at = name_start(names, n);
    let head = b.take(at);
    lemma_names_bound(names, n);
    assert(b.take(4) =~= tags::COK@);
    lemma_number_at(b, 4, count);
    assert forall|i: int| 0 <= i < names.len() implies text_at(
        head,
        name_start(names, i),
        #[trigger] names[i],
    ) by {
        lemma_names_order(names, i + 1, n);
        lemma_blob_in_front(b, name_start(names, i), encode_utf8(names[i]), at);
    }
    lemma_names_are(head, names);
    lemma_blob_is(b, at, blob);
    lemma_read_strings(head.take(8), names, blob_bytes(blob));
    lemma_read_blob(head, blob, seq![]);
    assert(head + blob_bytes(blob) + seq![] =~= b);
    assert(parse_strings(b, 8, (n + 1) as nat) is Bad);
    lemma_strings_stop(b, 8, (n + 1) as nat, count as nat);
}

/// The letters that open the answer to each kind of request, given by their numbers.
pub open spec fn letters(awaiting: Awaiting) -> Seq<u8> {
    match awaiting {
        Awaiting::Chain { .. } => seq![0x43, 0x4F, 0x4B, 0x20],
        Awaiting::Load { .. } => seq![0x4C, 0x4F, 0x4B, 0x20],
        Awaiting::Ack => seq![0x4F, 0x4B, 0x20, 0x20],
        Awaiting::Audio => seq![0x50, 0x4F, 0x4B, 0x20],
        Awaiting::AudioInto => seq![0x50, 0x4F, 0x4B, 0x20],
        Awaiting::Preset => seq![0x50, 0x52, 0x45, 0x20],
    }
}

/// Any other four letters fail the request, and are reported beside those that were expected.
pub proof fn law_unexpected_answer(w: &mut Worker, bytes: &[u8], progress: Progress)
    requires
        call_ensures(Worker::feed, (w, bytes), progress),
        old(w)@.awaiting is Some,
        (old(w)@.received + bytes@).len() == 4,
        old(w)@.received + bytes@ != letters(old(w)@.awaiting->0),
        !opens_with(old(w)@.received + bytes@, 0x45, 0x52, 0x52, 0x20),
    ensures
        over(old(w)@, final(w)@, old(w)@.channels),
        final(w)@.output == old(w)@.output,
        failed(
            progress,
            ErrorView::UnexpectedReply {
                expected: letters(old(w)@.awaiting->0),
                got: old(w)@.received + bytes@,
            },
        ),
{
    let b = old(w)@.received + bytes@;
    let tag = crate::protocol::reply_tag(old(w)@.awaiting->0);
    assert(b.take(4) =~= b);
    assert(tag@ =~= letters(old(w)@.awaiting->0));
    if b == tags::ERR@ {
        assert(tags::ERR@[0] == 0x45 && tags::ERR@[1] == 0x52 && tags::ERR@[2] == 0x52
            && tags::ERR@[3] == 0x20);
    }
}

/// Fewer than four bytes tell nothing yet: the session waits, and keeps what arrived.
pub proof fn law_too_little_to_tell(w: &mut Worker, bytes: &[u8], progress: Progress)
    requires
        call_ensures(Worker::feed, (w, bytes), progress),
        old(w)@.awaiting is Some,
        (old(w)@.received + bytes@).len() < 4,
    ensures
        progress is Waiting,
        final(w)@ == (Session { received: old(w)@.received + bytes@, ..old(w)@ }),
{
}

/// Audio that is not all there is waited for: so many bytes are asked for as the frames that were
/// announced still lack.
pub proof fn law_audio_is_waited_for(w: &mut Worker, bytes: &[u8], progress: Progress, frames: u32)
    requires
        call_ensures(Worker::feed, (w, bytes), progress),
        old(w)@.channels >= 1,
        old(w)@.awaiting == Some(Awaiting::Audio) || old(w)@.awaiting == Some(Awaiting::AudioInto),
        opens_with(old(w)@.received + bytes@, 0x50, 0x4F, 0x4B, 0x20),
        number_at(old(w)@.received + bytes@, 4, frames as int),
        (old(w)@.received + bytes@).len() < 8 + 4 * (frames * old(w)@.channels),
    ensures
        progress is Waiting,
        final(w)@ == (Session { received: old(w)@.received + bytes@, ..old(w)@ }),
        final(w)@.outcome() == Outcome::More(
            8 + 4 * (frames * old(w)@.channels) - (old(w)@.received + bytes@).len(),
        ),
{
    let b = old(w)@.received + bytes@;
    assert(b.take(4) =~= tags::POK@);
    lemma_number_at(b, 4, frames);
}

/// A worker that hung up is gone; what it owed is not waited for, and what was kept is still there.
pub proof fn law_hung_up(w: &mut Worker, e: Error)
    requires
        call_ensures(Worker::hung_up, (w,), e),
    ensures
        e@ == ErrorView::WorkerGone,
        final(w)@.gone,
        final(w)@.awaiting is None,
        final(w)@.received.len() == 0,
        final(w)@.channels == old(w)@.channels,
        final(w)@.output == old(w)@.output,
{
}

/// A session opens exactly if the worker speaks both versions of this side, the vocabulary being
/// version 1; it starts with two channels, nothing awaited and nothing kept. Otherwise the error
/// holds what both sides speak.
pub proof fn law_greeting(transport: u32, peer: PeerInfo, r: Result<Worker, Error>)
    requires
        call_ensures(Worker::greet, (transport, Ok(peer)), r),
    ensures
        r is Ok <==> peer.transport_version == transport && peer.vocab_version == 1,
        r matches Ok(w) ==> !w@.gone && w@.channels == 2 && w@.awaiting is None && w@.received.len()
            == 0 && w@.output.len() == 0 && w.peer_view() == peer@,
        r matches Err(e) ==> e@ == (ErrorView::Handshake {
            transport_version: transport,
            vocab_version: 1,
            peer: peer@,
        }),
{
}

/// A handshake that failed opens no session, and its reason is not changed.
pub proof fn law_no_greeting(transport: u32, e: Error, r: Result<Worker, Error>)
    requires
        call_ensures(Worker::greet, (transport, Err(e)), r),
    ensures
        r matches Err(f) && f == e,
{
}

/// The worker is the given program with the one argument `--worker`. It starts in the folder that
/// the options name, or else in the program's own, and its stderr is captured if they say so.
pub proof fn law_spawn_plan<'a>(
    exe: &'a PathBuf,
    dir: Option<&'a PathBuf>,
    opts: &'a SpawnOptions,
    plan: SpawnPlan<'a>,
    default_plan: SpawnPlan<'a>,
)
    requires
        call_ensures(Worker::spawn_with, (exe, dir, opts), plan),
        call_ensures(Worker::spawn, (exe, dir), default_plan),
    ensures
        plan.program == exe && default_plan.program == exe,
        plan.args@.len() == 1 && plan.args@[0]@ == "--worker"@,
        default_plan.args@.len() == 1 && default_plan.args@[0]@ == "--worker"@,
        opts.working_dir matches Some(d) ==> plan.working_dir == Some(&d),
        opts.working_dir is None ==> plan.working_dir == dir,
        default_plan.working_dir == dir,
        plan.stderr is Capture <==> opts.capture_stderr,
        default_plan.stderr is Inherit,
{
    let one = seq!["--worker"@];
    assert(texts(plan.args@) == one && texts(default_plan.args@) == one);
    assert(texts(plan.args@).len() == 1 && texts(default_plan.args@).len() == 1);
    assert(texts(plan.args@)[0] == "--worker"@ && texts(default_plan.args@)[0] == "--worker"@);
}

/// What the session tells of itself.
pub proof fn law_session_tells(
    w: &Worker,
    gone: bool,
    idle: bool,
    channels: u32,
    output: &[u32],
    peer: &PeerInfo,
)
    requires
        call_ensures(Worker::is_gone, (w,), gone),
        call_ensures(Worker::is_idle, (w,), idle),
        call_ensures(Worker::channels, (w,), channels),
        call_ensures(Worker::output, (w,), output),
        call_ensures(Worker::peer, (w,), peer),
        w@.well_formed(),
    ensures
        gone == w@.gone,
        idle <==> w@.awaiting is None,
        channels == w@.channels,
        output@ == w@.output,
        peer@ == w.peer_view(),
{
}

/// So many bytes are asked for as surely still belong to the answer: none where none is awaited, the
/// rest of its four letters at first, the rest of its number of frames then, and of audio all that
/// the frames still lack.
pub proof fn law_bytes_asked_for(w: &Worker, n: usize, frames: u32)
    requires
        call_ensures(Worker::need, (w,), n),
        w@.channels >= 1,
    ensures
        w@.awaiting is None ==> n == 0,
        w@.awaiting is Some && w@.received.len() < 4 ==> n == 4 - w@.received.len(),
        (w@.awaiting == Some(Awaiting::Audio) || w@.awaiting == Some(Awaiting::AudioInto))
            && opens_with(w@.received, 0x50, 0x4F, 0x4B, 0x20) ==> {
            let whole = 8 + 4 * (frames * w@.channels);
            &&& w@.received.len() < 8 ==> n == 8 - w@.received.len()
            &&& number_at(w@.received, 4, frames as int) && w@.received.len() < whole && whole
                <= usize::MAX ==> n == whole - w@.received.len()
        },
{
    let b = w@.received;
    if opens_with(b, 0x50, 0x4F, 0x4B, 0x20) {
        assert(b.take(4) =~= tags::POK@);
        if b.len() >= 8 {
            lemma_number_at(b, 4, frames);
        }
    }
}

} // verus!
