//! The messages of the worker vocabulary: what the parent asks and what the worker answers.
use vstd::prelude::*;
use vstd::utf8::encode_utf8;
use crate::error::{Error, ErrorView};
use crate::bytes::{le32, lemma_le32_len, lemma_samples_len, samples_bytes};
use crate::frame::{
    blob_bytes, lemma_cut_blob, lemma_cut_samples, lemma_cut_string,
    lemma_cut_strings, lemma_cut_u32, lemma_read_blob, lemma_read_samples, lemma_read_string,
    lemma_read_strings, lemma_read_u32, lemma_strings_bounds, parse_blob, parse_samples,
    parse_string, parse_strings, parse_u32, read_blob, read_samples, read_string, read_strings,
    read_u32, string_bytes, strings_bytes, texts, write_blob, write_samples,
    write_string, write_tag, write_u32, Parsed, Step,
};
use crate::tags;
use crate::tags::{tag_eq, Tag};

verus! {

broadcast use {lemma_le32_len, lemma_samples_len};

/// The channel count that audio is interleaved by: at least one.
pub open spec fn lanes(channels: u32) -> u32 {
    if channels == 0 {
        1
    } else {
        channels
    }
}

/// One stage of a chain: a component DLL, which DSP entry inside it (0 is the usual single
/// entry), and an optional preset.
#[derive(Debug, Clone, PartialEq, Eq)]
pub struct StageSpec {
    /// The path of the DLL, as text.
    pub dll: String,
    pub entry_index: u32,
    /// Opaque preset blob (16-byte owner GUID and data). Empty stands for the entry's default
    /// preset.
    pub preset: Vec<u8>,
}

/// The values in a [`StageSpec`].
pub struct StageView {
    pub dll: Seq<char>,
    pub entry_index: u32,
    pub preset: Seq<u8>,
}

impl View for StageSpec {
    type V = StageView;

    open spec fn view(&self) -> StageView {
        StageView { dll: self.dll@, entry_index: self.entry_index, preset: self.preset@ }
    }
}

impl StageSpec {
    /// A stage with entry 0 and the default preset.
    pub fn new(dll: &str) -> (stage: StageSpec)
        ensures
            stage@ == (StageView { dll: dll@, entry_index: 0, preset: seq![] }),
    {
        StageSpec { dll: dll.to_string(), entry_index: 0, preset: Vec::new() }
    }
}

/// The values in each stage.
pub open spec fn stage_views(stages: Seq<StageSpec>) -> Seq<StageView> {
    Seq::new(stages.len(), |i: int| stages[i]@)
}

/// A request to the worker.
pub enum Request {
    Chain { sample_rate: u32, channels: u32, stages: Seq<StageView> },
    Load { dll: Seq<char>, sample_rate: u32, channels: u32, entry_index: u32 },
    Reset,
    Process { frames: u32, samples: Seq<u32> },
    Drain,
    Configure { stage: u32 },
    GetPreset { stage: u32 },
    SetPreset { stage: u32, blob: Seq<u8> },
    Quit,
}

/// A stage on the wire.
pub open spec fn stage_bytes(stage: StageView) -> Seq<u8> {
    string_bytes(stage.dll) + le32(stage.entry_index) + blob_bytes(stage.preset)
}

/// Stages on the wire, one behind the other.
pub open spec fn stages_bytes(stages: Seq<StageView>) -> Seq<u8>
    decreases stages.len(),
{
    if stages.len() == 0 {
        seq![]
    } else {
        stages_bytes(stages.drop_last()) + stage_bytes(stages.last())
    }
}

/// A number cut down to the 32 bits of an integer field.
pub open spec fn low32(n: nat) -> u32 {
    (n % 0x1_0000_0000) as u32
}

/// A request on the wire.
pub open spec fn request_bytes(request: Request) -> Seq<u8> {
    match request {
        Request::Chain { sample_rate, channels, stages } => tags::CHAN@ + le32(sample_rate) + le32(
            channels,
        ) + le32(low32(stages.len())) + stages_bytes(stages),
        Request::Load { dll, sample_rate, channels, entry_index } => tags::LOAD@ + string_bytes(dll)
            + le32(sample_rate) + le32(channels) + le32(entry_index),
        Request::Reset => tags::RST@,
        Request::Process { frames, samples } => tags::PROC@ + le32(frames) + samples_bytes(samples),
        Request::Drain => tags::FLSH@,
        Request::Configure { stage } => tags::CFG@ + le32(stage),
        Request::GetPreset { stage } => tags::GPRE@ + le32(stage),
        Request::SetPreset { stage, blob } => tags::SPRE@ + le32(stage) + blob_bytes(blob),
        Request::Quit => tags::QUIT@,
    }
}

/// Whether the length fields can hold the lengths of a stage's path and preset.
pub open spec fn stage_fits(stage: StageView) -> bool {
    encode_utf8(stage.dll).len() <= u32::MAX && stage.preset.len() <= u32::MAX
}

/// Whether the length fields can hold the lengths of all the stages' paths and presets.
pub open spec fn stages_fit(stages: Seq<StageView>) -> bool {
    forall|i: int| 0 <= i < stages.len() ==> stage_fits(#[trigger] stages[i])
}

/// What kind of answer a request calls for.
#[derive(Debug, Clone, Copy, PartialEq, Eq)]
pub enum Awaiting {
    /// The names of the stages of a chain of that many channels.
    Chain { channels: u32 },
    /// The name of the one stage of a chain of that many channels.
    Load { channels: u32 },
    /// An acknowledgement.
    Ack,
    /// Audio, kept by the session.
    Audio,
    /// Audio, handed to the caller.
    AudioInto,
    /// A preset blob.
    Preset,
}

/// The tag that opens the answer.
pub open spec fn reply_tag(awaiting: Awaiting) -> Tag {
    match awaiting {
        Awaiting::Chain { .. } => tags::COK,
        Awaiting::Load { .. } => tags::LOK,
        Awaiting::Ack => tags::OK,
        Awaiting::Audio => tags::POK,
        Awaiting::AudioInto => tags::POK,
        Awaiting::Preset => tags::PRE,
    }
}

/// An answer to a request.
#[derive(Debug, Clone, PartialEq, Eq)]
pub enum Reply {
    /// The name of each stage.
    Chain(Vec<String>),
    /// The name of the one stage.
    Loaded(String),
    Ack,
    /// The frame count and the samples.
    Audio(u32, Vec<u32>),
    Preset(Vec<u8>),
}

/// The values in a [`Reply`].
pub enum ReplyView {
    Chain(Seq<Seq<char>>),
    Loaded(Seq<char>),
    Ack,
    Audio(u32, Seq<u32>),
    Preset(Seq<u8>),
}

impl View for Reply {
    type V = ReplyView;

    open spec fn view(&self) -> ReplyView {
        match *self {
            Reply::Chain(names) => ReplyView::Chain(texts(names@)),
            Reply::Loaded(name) => ReplyView::Loaded(name@),
            Reply::Ack => ReplyView::Ack,
            Reply::Audio(frames, samples) => ReplyView::Audio(frames, samples@),
            Reply::Preset(blob) => ReplyView::Preset(blob@),
        }
    }
}

/// What the bytes that have arrived so far make of an answer.
pub enum Outcome {
    /// At least this many more bytes belong to the answer.
    More(int),
    /// The answer, which ends just before `end`.
    Done { reply: ReplyView, end: int },
    /// The request failed; what was read of the answer ends just before `end`.
    Failed { error: ErrorView, end: int },
}

/// An answer made of an item that was read.
pub open spec fn outcome_of<T>(item: Parsed<T>, reply: spec_fn(T) -> ReplyView) -> Outcome {
    match item {
        Parsed::Got { value, end } => Outcome::Done { reply: reply(value), end },
        Parsed::More(n) => Outcome::More(n),
        Parsed::Bad(end) => Outcome::Failed { error: ErrorView::InvalidUtf8, end },
    }
}

/// The message of an `ERR ` answer.
pub open spec fn parse_failure(b: Seq<u8>) -> Outcome {
    match parse_string(b, 4) {
        Parsed::Got { value, end } => Outcome::Failed { error: ErrorView::Remote(value), end },
        Parsed::More(n) => Outcome::More(n),
        Parsed::Bad(end) => Outcome::Failed { error: ErrorView::InvalidUtf8, end },
    }
}

/// What follows the tag that the request calls for.
pub open spec fn parse_body(awaiting: Awaiting, channels: u32, b: Seq<u8>) -> Outcome {
    match awaiting {
        Awaiting::Chain { .. } => match parse_u32(b, 4) {
            Parsed::Got { value, end } => outcome_of(
                parse_strings(b, end, value as nat),
                |names: Seq<Seq<char>>| ReplyView::Chain(names),
            ),
            Parsed::More(n) => Outcome::More(n),
            Parsed::Bad(end) => Outcome::Failed { error: ErrorView::InvalidUtf8, end },
        },
        Awaiting::Load { .. } => match parse_u32(b, 4) {
            Parsed::Got { value, end } => outcome_of(
                parse_string(b, end),
                |name: Seq<char>| ReplyView::Loaded(name),
            ),
            Parsed::More(n) => Outcome::More(n),
            Parsed::Bad(end) => Outcome::Failed { error: ErrorView::InvalidUtf8, end },
        },
        Awaiting::Ack => Outcome::Done { reply: ReplyView::Ack, end: 4 },
        Awaiting::Audio | Awaiting::AudioInto => match parse_u32(b, 4) {
            Parsed::Got { value, end } => outcome_of(
                parse_samples(b, end, value * lanes(channels)),
                |samples: Seq<u32>| ReplyView::Audio(value, samples),
            ),
            Parsed::More(n) => Outcome::More(n),
            Parsed::Bad(end) => Outcome::Failed { error: ErrorView::InvalidUtf8, end },
        },
        Awaiting::Preset => outcome_of(parse_blob(b, 4), |blob: Seq<u8>| ReplyView::Preset(blob)),
    }
}

/// What the bytes `b`, the start of an answer, make of it: the answer proper behind its tag,
/// the worker's message behind `ERR `, a failure behind any other tag.
pub open spec fn parse_reply(awaiting: Awaiting, channels: u32, b: Seq<u8>) -> Outcome {
    if b.len() < 4 {
        Outcome::More(4 - b.len())
    } else if b.take(4) == reply_tag(awaiting)@ {
        parse_body(awaiting, channels, b)
    } else if b.take(4) == tags::ERR@ {
        parse_failure(b)
    } else {
        Outcome::Failed {
            error: ErrorView::UnexpectedReply { expected: reply_tag(awaiting)@, got: b.take(4) },
            end: 4,
        }
    }
}

/// Where an answer or a failure ends.
pub open spec fn outcome_end(outcome: Outcome) -> Option<int> {
    match outcome {
        Outcome::More(_) => None,
        Outcome::Done { end, .. } => Some(end),
        Outcome::Failed { end, .. } => Some(end),
    }
}

/// No answer asks for a byte behind its own end: from any part of it, what is read next lies
/// within it, and from all of it the answer is the same whatever stands behind.
pub proof fn law_reply_within_its_end(awaiting: Awaiting, channels: u32, b: Seq<u8>, cut: int)
    requires
        0 <= cut <= b.len(),
        outcome_end(parse_reply(awaiting, channels, b)) is Some,
    ensures
        ({
            let whole = parse_reply(awaiting, channels, b);
            let part = parse_reply(awaiting, channels, b.take(cut));
            let end = outcome_end(whole)->0;
            &&& 0 <= end <= b.len()
            &&& cut >= end ==> part == whole
            &&& cut < end ==> (part matches Outcome::More(n) && 1 <= n <= end - cut)
        }),
{
    let p = b.take(cut);
    if cut >= 4 {
        assert(p.take(4) =~= b.take(4));
        lemma_cut_u32(b, 4, cut);
        lemma_cut_blob(b, 4, cut);
        lemma_cut_string(b, 4, cut);
        if let Parsed::Got { value, end } = parse_u32(b, 4) {
            lemma_strings_bounds(b, end, value as nat);
            assert(value * lanes(channels) >= 0) by (nonlinear_arith)
                requires
                    value >= 0,
                    lanes(channels) >= 0,
            ;
            if cut >= end {
                lemma_cut_strings(b, end, value as nat, cut);
                lemma_cut_string(b, end, cut);
                lemma_cut_samples(b, end, value * lanes(channels), cut);
            }
        }
    } else {
        if let Parsed::Got { value, end } = parse_u32(b, 4) {
            lemma_strings_bounds(b, end, value as nat);
            assert(value * lanes(channels) >= 0) by (nonlinear_arith)
                requires
                    value >= 0,
                    lanes(channels) >= 0,
            ;
        }
    }
}

/// A message of the worker.
pub enum Message {
    Chain(Seq<Seq<char>>),
    Loaded { status: u32, name: Seq<char> },
    Ack,
    Audio { frames: u32, samples: Seq<u32> },
    Preset(Seq<u8>),
    Failed(Seq<char>),
}

/// A message of the worker on the wire.
pub open spec fn message_bytes(message: Message) -> Seq<u8> {
    match message {
        Message::Chain(names) => tags::COK@ + le32(names.len() as u32) + strings_bytes(names),
        Message::Loaded { status, name } => tags::LOK@ + le32(status) + string_bytes(name),
        Message::Ack => tags::OK@,
        Message::Audio { frames, samples } => tags::POK@ + le32(frames) + samples_bytes(samples),
        Message::Preset(blob) => tags::PRE@ + blob_bytes(blob),
        Message::Failed(text) => tags::ERR@ + string_bytes(text),
    }
}

/// Whether a message of the worker answers a request that calls for `awaiting`, in a chain of
/// `channels`, with every length within its field.
pub open spec fn answers(message: Message, awaiting: Awaiting, channels: u32) -> bool {
    match message {
        Message::Chain(names) => {
            &&& awaiting is Chain
            &&& names.len() <= u32::MAX
            &&& forall|i: int|
                0 <= i < names.len() ==> encode_utf8(#[trigger] names[i]).len() <= u32::MAX
        },
        Message::Loaded { name, .. } => awaiting is Load && encode_utf8(name).len() <= u32::MAX,
        Message::Ack => awaiting is Ack,
        Message::Audio { frames, samples } => {
            &&& awaiting is Audio || awaiting is AudioInto
            &&& samples.len() == frames * lanes(channels)
        },
        Message::Preset(blob) => awaiting is Preset && blob.len() <= u32::MAX,
        Message::Failed(text) => encode_utf8(text).len() <= u32::MAX,
    }
}

/// What a message of the worker means to the request it answers.
pub open spec fn meaning(message: Message) -> Outcome {
    let end = message_bytes(message).len() as int;
    match message {
        Message::Chain(names) => Outcome::Done { reply: ReplyView::Chain(names), end },
        Message::Loaded { name, .. } => Outcome::Done { reply: ReplyView::Loaded(name), end },
        Message::Ack => Outcome::Done { reply: ReplyView::Ack, end },
        Message::Audio { frames, samples } => Outcome::Done {
            reply: ReplyView::Audio(frames, samples),
            end,
        },
        Message::Preset(blob) => Outcome::Done { reply: ReplyView::Preset(blob), end },
        Message::Failed(text) => Outcome::Failed { error: ErrorView::Remote(text), end },
    }
}

proof fn lemma_chain_read_back(names: Seq<Seq<char>>, awaiting: Awaiting, channels: u32)
    requires
        answers(Message::Chain(names), awaiting, channels),
    ensures
        parse_reply(awaiting, channels, message_bytes(Message::Chain(names))) == meaning(
            Message::Chain(names),
        ),
{
    let b = message_bytes(Message::Chain(names));
    let none = Seq::<u8>::empty();
    let count = names.len() as u32;
    lemma_read_u32(tags::COK@, count, strings_bytes(names));
    lemma_read_strings(tags::COK@ + le32(count), names, none);
    assert(b =~= tags::COK@ + le32(count) + strings_bytes(names) + none);
    assert(b.take(4) =~= tags::COK@);
}

proof fn lemma_loaded_read_back(status: u32, name: Seq<char>, awaiting: Awaiting, channels: u32)
    requires
        answers(Message::Loaded { status, name }, awaiting, channels),
    ensures
        parse_reply(awaiting, channels, message_bytes(Message::Loaded { status, name })) == meaning(
            Message::Loaded { status, name },
        ),
{
    let b = message_bytes(Message::Loaded { status, name });
    let none = Seq::<u8>::empty();
    lemma_read_u32(tags::LOK@, status, string_bytes(name));
    lemma_read_string(tags::LOK@ + le32(status), name, none);
    assert(b =~= tags::LOK@ + le32(status) + string_bytes(name) + none);
    assert(b.take(4) =~= tags::LOK@);
}

proof fn lemma_audio_read_back(frames: u32, samples: Seq<u32>, awaiting: Awaiting, channels: u32)
    requires
        answers(Message::Audio { frames, samples }, awaiting, channels),
    ensures
        parse_reply(awaiting, channels, message_bytes(Message::Audio { frames, samples }))
            == meaning(Message::Audio { frames, samples }),
{
    let b = message_bytes(Message::Audio { frames, samples });
    let none = Seq::<u8>::empty();
    lemma_read_u32(tags::POK@, frames, samples_bytes(samples));
    lemma_read_samples(tags::POK@ + le32(frames), samples, none);
    assert(b =~= tags::POK@ + le32(frames) + samples_bytes(samples) + none);
    assert(b.take(4) =~= tags::POK@);
}

proof fn lemma_failure_read_back(text: Seq<char>, awaiting: Awaiting, channels: u32)
    requires
        answers(Message::Failed(text), awaiting, channels),
    ensures
        parse_reply(awaiting, channels, message_bytes(Message::Failed(text))) == meaning(
            Message::Failed(text),
        ),
{
    let b = message_bytes(Message::Failed(text));
    let none = Seq::<u8>::empty();
    lemma_read_string(tags::ERR@, text, none);
    assert(b =~= tags::ERR@ + string_bytes(text) + none);
    assert(b.take(4) =~= tags::ERR@);
    assert(tags::ERR@[0] == 0x45);
    let tag = reply_tag(awaiting)@;
    assert(tag[0] != 0x45);
}

/// What the worker says is what the parent reads: an answer is read back whole, an `ERR `
/// message comes out as the request's failure, and nothing of either is left unread.
pub proof fn law_message_read_back(message: Message, awaiting: Awaiting, channels: u32)
    requires
        answers(message, awaiting, channels),
    ensures
        parse_reply(awaiting, channels, message_bytes(message)) == meaning(message),
{
    match message {
        Message::Chain(names) => {
            lemma_chain_read_back(names, awaiting, channels);
        },
        Message::Loaded { status, name } => {
            lemma_loaded_read_back(status, name, awaiting, channels);
        },
        Message::Ack => {
            assert(tags::OK@.take(4) =~= tags::OK@);
        },
        Message::Audio { frames, samples } => {
            lemma_audio_read_back(frames, samples, awaiting, channels);
        },
        Message::Preset(blob) => {
            let b = message_bytes(message);
            let none = Seq::<u8>::empty();
            lemma_read_blob(tags::PRE@, blob, none);
            assert(b =~= tags::PRE@ + blob_bytes(blob) + none);
            assert(b.take(4) =~= tags::PRE@);
        },
        Message::Failed(text) => {
            lemma_failure_read_back(text, awaiting, channels);
        },
    }
}

/// What the bytes of an answer that have arrived so far make of it.
pub enum Reading {
    /// The answer goes on for at least so many bytes.
    More(usize),
    /// The answer, and how many bytes it takes.
    Done(Reply, usize),
    /// The request failed, and how many bytes of the answer were read.
    Failed(Error, usize),
}

/// Whether what was read of an answer is what its bytes make of it. A demand for more bytes
/// than a `usize` can count is cut down to that.
pub open spec fn reading_is(reading: Reading, outcome: Outcome) -> bool {
    match outcome {
        Outcome::More(n) => reading matches Reading::More(m) && m == (if n <= usize::MAX {
            n
        } else {
            usize::MAX as int
        }),
        Outcome::Done { reply, end } => reading matches Reading::Done(r, e) && r@ == reply && e
            == end,
        Outcome::Failed { error, end } => reading matches Reading::Failed(f, e) && f@ == error && e
            == end,
    }
}

/// The tag that opens the answer.
fn expected_tag(awaiting: Awaiting) -> (tag: Tag)
    ensures
        tag@ == reply_tag(awaiting)@,
{
    match awaiting {
        Awaiting::Chain { .. } => tags::COK,
        Awaiting::Load { .. } => tags::LOK,
        Awaiting::Ack => tags::OK,
        Awaiting::Audio => tags::POK,
        Awaiting::AudioInto => tags::POK,
        Awaiting::Preset => tags::PRE,
    }
}

/// Reads the tag of an answer: the bytes behind it are the answer proper where it is `tag`.
pub fn expect_reply(b: &[u8], tag: Tag) -> (r: Step<Result<(), Error>>)
    ensures
        match r {
            Step::Got(Ok(_), end) => b@.len() >= 4 && b@.take(4) == tag@ && end == 4,
            Step::Got(Err(e), end) => {
                &&& b@.len() >= 4 && b@.take(4) != tag@
                &&& b@.take(4) == tags::ERR@ ==> parse_failure(b@) == (Outcome::Failed {
                    error: e@,
                    end: end as int,
                })
                &&& b@.take(4) != tags::ERR@ ==> e@ == (ErrorView::UnexpectedReply {
                    expected: tag@,
                    got: b@.take(4),
                }) && end == 4
            },
            Step::More(n) => {
                ||| b@.len() < 4 && n == 4 - b@.len()
                ||| b@.len() >= 4 && b@.take(4) != tag@ && b@.take(4) == tags::ERR@
                    && parse_failure(b@) == Outcome::More(n as int)
            },
            Step::Bad(_) => false,
        },
{
    if b.len() < 4 {
        return Step::More(4 - b.len());
    }
    let got: Tag = [b[0], b[1], b[2], b[3]];
    assert(got@ =~= b@.take(4));
    if tag_eq(got, tag) {
        return Step::Got(Ok(()), 4);
    }
    if tag_eq(got, tags::ERR) {
        return match read_string(b, 4) {
            Step::Got(message, end) => Step::Got(Err(Error::Remote(message)), end),
            Step::More(n) => Step::More(n),
            Step::Bad(end) => Step::Got(Err(Error::InvalidUtf8), end),
        };
    }
    Step::Got(Err(Error::UnexpectedReply { expected: tag, got }), 4)
}

fn read_chain_body(awaiting: Awaiting, channels: u32, b: &[u8]) -> (r: Reading)
    requires
        b@.len() >= 4,
        awaiting is Chain,
    ensures
        reading_is(r, parse_body(awaiting, channels, b@)),
{
    match read_u32(b, 4) {
        Step::Got(count, at) => match read_strings(b, at, count) {
            Step::Got(names, end) => Reading::Done(Reply::Chain(names), end),
            Step::More(n) => Reading::More(n),
            Step::Bad(end) => Reading::Failed(Error::InvalidUtf8, end),
        },
        Step::More(n) => Reading::More(n),
        Step::Bad(end) => Reading::Failed(Error::InvalidUtf8, end),
    }
}

fn read_load_body(awaiting: Awaiting, channels: u32, b: &[u8]) -> (r: Reading)
    requires
        b@.len() >= 4,
        awaiting is Load,
    ensures
        reading_is(r, parse_body(awaiting, channels, b@)),
{
    match read_u32(b, 4) {
        Step::Got(_status, at) => match read_string(b, at) {
            Step::Got(name, end) => Reading::Done(Reply::Loaded(name), end),
            Step::More(n) => Reading::More(n),
            Step::Bad(end) => Reading::Failed(Error::InvalidUtf8, end),
        },
        Step::More(n) => Reading::More(n),
        Step::Bad(end) => Reading::Failed(Error::InvalidUtf8, end),
    }
}

/// At least one.
pub fn at_least_one(channels: u32) -> (r: u32)
    ensures
        r == lanes(channels),
{
    if channels == 0 {
        1
    } else {
        channels
    }
}

fn read_audio_body(awaiting: Awaiting, channels: u32, b: &[u8]) -> (r: Reading)
    requires
        b@.len() >= 4,
        awaiting is Audio || awaiting is AudioInto,
    ensures
        reading_is(r, parse_body(awaiting, channels, b@)),
{
    match read_u32(b, 4) {
        Step::Got(frames, at) => {
            let per_frame: u32 = at_least_one(channels);
            assert(0 <= frames * per_frame <= 0xFFFF_FFFF * 0xFFFF_FFFF) by (nonlinear_arith)
                requires
                    0 <= frames <= 0xFFFF_FFFF,
                    0 <= per_frame <= 0xFFFF_FFFF,
            ;
            let count: u64 = frames as u64 * per_frame as u64;
            let bytes: u128 = 4 * count as u128;
            let left: usize = b.len() - at;
            if (left as u128) < bytes {
                let missing: u128 = bytes - left as u128;
                if missing <= usize::MAX as u128 {
                    return Reading::More(missing as usize);
                }
                return Reading::More(usize::MAX);
            }
            let end: usize = at + bytes as usize;
            let samples: Vec<u32> = read_samples(b, at, end);
            Reading::Done(Reply::Audio(frames, samples), end)
        },
        Step::More(n) => Reading::More(n),
        Step::Bad(end) => Reading::Failed(Error::InvalidUtf8, end),
    }
}

/// Reads an answer from the bytes of it that have arrived so far.
pub fn read_reply(awaiting: Awaiting, channels: u32, b: &[u8]) -> (r: Reading)
    ensures
        reading_is(r, parse_reply(awaiting, channels, b@)),
{
    match expect_reply(b, expected_tag(awaiting)) {
        Step::Got(Ok(_), _) => match awaiting {
            Awaiting::Chain { .. } => read_chain_body(awaiting, channels, b),
            Awaiting::Load { .. } => read_load_body(awaiting, channels, b),
            Awaiting::Ack => Reading::Done(Reply::Ack, 4),
            Awaiting::Audio | Awaiting::AudioInto => read_audio_body(awaiting, channels, b),
            Awaiting::Preset => match read_blob(b, 4) {
                Step::Got(blob, end) => Reading::Done(Reply::Preset(blob), end),
                Step::More(n) => Reading::More(n),
                Step::Bad(end) => Reading::Failed(Error::InvalidUtf8, end),
            },
        },
        Step::Got(Err(error), end) => Reading::Failed(error, end),
        Step::More(n) => Reading::More(n),
        Step::Bad(end) => Reading::Failed(Error::InvalidUtf8, end),
    }
}

/// Whether the length fields can hold the lengths of a stage's path and preset.
pub fn check_stage(stage: &StageSpec) -> (fits: bool)
    ensures
        fits == stage_fits(stage@),
{
    stage.dll.as_str().as_bytes().len() <= u32::MAX as usize && stage.preset.len()
        <= u32::MAX as usize
}

/// Whether the length fields can hold the lengths of all the stages' paths and presets.
pub fn check_stages(stages: &[StageSpec]) -> (fit: bool)
    ensures
        fit == stages_fit(stage_views(stages@)),
{
    let ghost views = stage_views(stages@);
    let mut i: usize = 0;
    while i < stages.len()
        invariant
            i <= stages@.len(),
            views == stage_views(stages@),
            forall|k: int| 0 <= k < i ==> stage_fits(#[trigger] views[k]),
        decreases stages@.len() - i,
    {
        assert(views[i as int] == stages@[i as int]@);
        if !check_stage(&stages[i]) {
            return false;
        }
        i += 1;
    }
    true
}

/// The `CHAN` message.
pub fn chain_message(sample_rate: u32, channels: u32, stages: &[StageSpec]) -> (out: Vec<u8>)
    requires
        stages_fit(stage_views(stages@)),
    ensures
        out@ == request_bytes(
            Request::Chain { sample_rate, channels, stages: stage_views(stages@) },
        ),
{
    let ghost views = stage_views(stages@);
    let mut out: Vec<u8> = Vec::new();
    write_tag(&mut out, tags::CHAN);
    write_u32(&mut out, sample_rate);
    write_u32(&mut out, channels);
    let count: u32 = (stages.len() as u64 % 0x1_0000_0000) as u32;
    write_u32(&mut out, count);
    let ghost head = tags::CHAN@ + le32(sample_rate) + le32(channels) + le32(count);
    assert(out@ =~= head);
    assert(stages_bytes(views.take(0)) =~= seq![]);
    let mut i: usize = 0;
    while i < stages.len()
        invariant
            i <= stages@.len(),
            views == stage_views(stages@),
            stages_fit(views),
            out@ == head + stages_bytes(views.take(i as int)),
        decreases stages@.len() - i,
    {
        let stage: &StageSpec = &stages[i];
        assert(views[i as int] == stage@);
        let ghost before = out@;
        write_string(&mut out, stage.dll.as_str());
        write_u32(&mut out, stage.entry_index);
        write_blob(&mut out, stage.preset.as_slice());
        proof {
            assert(out@ =~= before + stage_bytes(stage@));
            let more = views.take(i + 1);
            assert(more.drop_last() =~= views.take(i as int));
            assert(more.last() == stage@);
            assert(out@ =~= head + stages_bytes(more));
        }
        i += 1;
    }
    assert(views.take(i as int) =~= views);
    out
}

/// The `LOAD` message.
pub fn load_message(dll: &str, sample_rate: u32, channels: u32, entry_index: u32) -> (out: Vec<u8>)
    requires
        encode_utf8(dll@).len() <= u32::MAX,
    ensures
        out@ == request_bytes(Request::Load { dll: dll@, sample_rate, channels, entry_index }),
{
    let mut out: Vec<u8> = Vec::new();
    write_tag(&mut out, tags::LOAD);
    write_string(&mut out, dll);
    write_u32(&mut out, sample_rate);
    write_u32(&mut out, channels);
    write_u32(&mut out, entry_index);
    assert(out@ =~= request_bytes(
        Request::Load { dll: dll@, sample_rate, channels, entry_index },
    ));
    out
}

/// A message that is a tag alone.
pub fn bare_message(tag: Tag) -> (out: Vec<u8>)
    ensures
        out@ == tag@,
{
    let mut out: Vec<u8> = Vec::new();
    write_tag(&mut out, tag);
    assert(out@ =~= tag@);
    out
}

/// A message that is a tag and a stage's number.
pub fn stage_message(tag: Tag, stage: u32) -> (out: Vec<u8>)
    ensures
        out@ == tag@ + le32(stage),
{
    let mut out: Vec<u8> = bare_message(tag);
    write_u32(&mut out, stage);
    out
}

/// The `PROC` message.
pub fn process_message(frames: u32, samples: &[u32]) -> (out: Vec<u8>)
    ensures
        out@ == request_bytes(Request::Process { frames, samples: samples@ }),
{
    let mut out: Vec<u8> = bare_message(tags::PROC);
    write_u32(&mut out, frames);
    write_samples(&mut out, samples);
    out
}

/// The `SPRE` message.
pub fn set_preset_message(stage: u32, blob: &[u8]) -> (out: Vec<u8>)
    requires
        blob@.len() <= u32::MAX,
    ensures
        out@ == request_bytes(Request::SetPreset { stage, blob: blob@ }),
{
    let mut out: Vec<u8> = stage_message(tags::SPRE, stage);
    write_blob(&mut out, blob);
    out
}

} // verus!
