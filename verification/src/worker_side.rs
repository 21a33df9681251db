//! How the worker reads a request, and that it hears what the parent said.
use vstd::prelude::*;
use vstd::utf8::encode_utf8;
use crate::bytes::{le32, lemma_le32_len, lemma_samples_len, samples_bytes};
use crate::frame::{
    blob_bytes, lemma_read_blob, lemma_read_samples, lemma_read_string, lemma_read_u32,
    parse_blob, parse_samples, parse_string, parse_u32, string_bytes, Parsed,
};
use crate::protocol::{
    lanes, low32, request_bytes, stage_bytes, stage_fits, stages_bytes, stages_fit, Request,
    StageView,
};
use crate::tags;

verus! {

broadcast use {lemma_le32_len, lemma_samples_len};

/// Reads a stage at `pos`.
pub open spec fn parse_stage(b: Seq<u8>, pos: int) -> Parsed<StageView> {
    match parse_string(b, pos) {
        Parsed::Got { value: dll, end } => match parse_u32(b, end) {
            Parsed::Got { value: entry_index, end } => match parse_blob(b, end) {
                Parsed::Got { value: preset, end } => Parsed::Got {
                    value: StageView { dll, entry_index, preset },
                    end,
                },
                Parsed::More(n) => Parsed::More(n),
                Parsed::Bad(end) => Parsed::Bad(end),
            },
            Parsed::More(n) => Parsed::More(n),
            Parsed::Bad(end) => Parsed::Bad(end),
        },
        Parsed::More(n) => Parsed::More(n),
        Parsed::Bad(end) => Parsed::Bad(end),
    }
}

/// Reads `count` stages at `pos`, one behind the other.
pub open spec fn parse_stages(b: Seq<u8>, pos: int, count: nat) -> Parsed<Seq<StageView>>
    decreases count,
{
    if count == 0 {
        Parsed::Got { value: seq![], end: pos }
    } else {
        match parse_stages(b, pos, (count - 1) as nat) {
            Parsed::Got { value: stages, end } => match parse_stage(b, end) {
                Parsed::Got { value, end } => Parsed::Got { value: stages.push(value), end },
                Parsed::More(n) => Parsed::More(n),
                Parsed::Bad(end) => Parsed::Bad(end),
            },
            Parsed::More(n) => Parsed::More(n),
            Parsed::Bad(end) => Parsed::Bad(end),
        }
    }
}

/// The request that the bytes behind `CHAN` make.
pub open spec fn read_chain(b: Seq<u8>) -> Option<Request> {
    match (parse_u32(b, 4), parse_u32(b, 8), parse_u32(b, 12)) {
        (
            Parsed::Got { value: sample_rate, .. },
            Parsed::Got { value: channels, .. },
            Parsed::Got { value: count, end },
        ) => match parse_stages(b, end, count as nat) {
            Parsed::Got { value: stages, end } => if end == b.len() {
                Some(Request::Chain { sample_rate, channels, stages })
            } else {
                None
            },
            _ => None,
        },
        _ => None,
    }
}

/// The request that the bytes behind `LOAD` make.
pub open spec fn read_load(b: Seq<u8>) -> Option<Request> {
    match parse_string(b, 4) {
        Parsed::Got { value: dll, end } => match (
            parse_u32(b, end),
            parse_u32(b, end + 4),
            parse_u32(b, end + 8),
        ) {
            (
                Parsed::Got { value: sample_rate, .. },
                Parsed::Got { value: channels, .. },
                Parsed::Got { value: entry_index, end },
            ) => if end == b.len() {
                Some(Request::Load { dll, sample_rate, channels, entry_index })
            } else {
                None
            },
            _ => None,
        },
        _ => None,
    }
}

/// The request that the bytes behind `PROC` make, in a chain of `channels`.
pub open spec fn read_process(b: Seq<u8>, channels: u32) -> Option<Request> {
    match parse_u32(b, 4) {
        Parsed::Got { value: frames, end } => match parse_samples(
            b,
            end,
            frames * lanes(channels),
        ) {
            Parsed::Got { value: samples, end } => if end == b.len() {
                Some(Request::Process { frames, samples })
            } else {
                None
            },
            _ => None,
        },
        _ => None,
    }
}

/// The stage that the bytes behind a tag number.
pub open spec fn read_stage_number(b: Seq<u8>) -> Option<u32> {
    match parse_u32(b, 4) {
        Parsed::Got { value, end } => if end == b.len() {
            Some(value)
        } else {
            None
        },
        _ => None,
    }
}

/// The request that the bytes behind `SPRE` make.
pub open spec fn read_set_preset(b: Seq<u8>) -> Option<Request> {
    match parse_u32(b, 4) {
        Parsed::Got { value: stage, end } => match parse_blob(b, end) {
            Parsed::Got { value: blob, end } => if end == b.len() {
                Some(Request::SetPreset { stage, blob })
            } else {
                None
            },
            _ => None,
        },
        _ => None,
    }
}

/// The request without a payload that a message makes: its tag is all of it.
pub open spec fn read_bare(b: Seq<u8>, request: Request) -> Option<Request> {
    if b.len() == 4 {
        Some(request)
    } else {
        None
    }
}

/// The request that the bytes of a message make to a worker whose chain has `channels`.
pub open spec fn read_request(b: Seq<u8>, channels: u32) -> Option<Request> {
    if b.len() < 4 {
        None
    } else {
        let tag = b.take(4);
        if tag == tags::CHAN@ {
            read_chain(b)
        } else if tag == tags::LOAD@ {
            read_load(b)
        } else if tag == tags::RST@ {
            read_bare(b, Request::Reset)
        } else if tag == tags::PROC@ {
            read_process(b, channels)
        } else if tag == tags::FLSH@ {
            read_bare(b, Request::Drain)
        } else if tag == tags::CFG@ {
            match read_stage_number(b) {
                Some(stage) => Some(Request::Configure { stage }),
                None => None,
            }
        } else if tag == tags::GPRE@ {
            match read_stage_number(b) {
                Some(stage) => Some(Request::GetPreset { stage }),
                None => None,
            }
        } else if tag == tags::SPRE@ {
            read_set_preset(b)
        } else if tag == tags::QUIT@ {
            read_bare(b, Request::Quit)
        } else {
            None
        }
    }
}

/// Whether every length of a request is within its field, and its audio is whole frames of the
/// chain's channels.
pub open spec fn request_fits(request: Request, channels: u32) -> bool {
    match request {
        Request::Chain { stages, .. } => stages.len() <= u32::MAX && stages_fit(stages),
        Request::Load { dll, .. } => encode_utf8(dll).len() <= u32::MAX,
        Request::Process { frames, samples } => samples.len() == frames * lanes(channels),
        Request::SetPreset { blob, .. } => blob.len() <= u32::MAX,
        _ => true,
    }
}

proof fn lemma_read_stage(before: Seq<u8>, stage: StageView, after: Seq<u8>)
    requires
        stage_fits(stage),
    ensures
        parse_stage(before + stage_bytes(stage) + after, before.len() as int) == (Parsed::Got {
            value: stage,
            end: (before.len() + stage_bytes(stage).len()) as int,
        }),
{
    let b = before + stage_bytes(stage) + after;
    let dll = string_bytes(stage.dll);
    let entry = le32(stage.entry_index);
    let preset = blob_bytes(stage.preset);
    lemma_read_string(before, stage.dll, entry + preset + after);
    assert(b =~= before + dll + (entry + preset + after));
    lemma_read_u32(before + dll, stage.entry_index, preset + after);
    assert(b =~= (before + dll) + entry + (preset + after));
    lemma_read_blob(before + dll + entry, stage.preset, after);
    assert(b =~= (before + dll + entry) + preset + after);
}

proof fn lemma_regroup(a: Seq<u8>, b: Seq<u8>, c: Seq<u8>, d: Seq<u8>)
    ensures
        a + (b + c) + d == a + b + (c + d),
        a + (b + c) + d == (a + b) + c + d,
{
    assert(a + (b + c) + d =~= a + b + (c + d));
    assert(a + (b + c) + d =~= (a + b) + c + d);
}

proof fn lemma_read_stages(before: Seq<u8>, stages: Seq<StageView>, after: Seq<u8>)
    requires
        stages_fit(stages),
    ensures
        parse_stages(before + stages_bytes(stages) + after, before.len() as int, stages.len())
            == (Parsed::Got {
            value: stages,
            end: (before.len() + stages_bytes(stages).len()) as int,
        }),
    decreases stages.len(),
{
    let b = before + stages_bytes(stages) + after;
    if stages.len() == 0 {
        assert(stages =~= seq![]);
    } else {
        let first = stages.drop_last();
        let last = stage_bytes(stages.last());
        assert forall|i: int| 0 <= i < first.len() implies stage_fits(#[trigger] first[i]) by {
            assert(first[i] == stages[i]);
        }
        lemma_read_stages(before, first, last + after);
        lemma_regroup(before, stages_bytes(first), last, after);
        lemma_read_stage(before + stages_bytes(first), stages.last(), after);
        assert(first.push(stages.last()) =~= stages);
    }
}

proof fn lemma_heads(t: Seq<u8>, r: Seq<u8>, c: Seq<u8>, n: Seq<u8>, s: Seq<u8>)
    ensures
        t + r + c + n + s == t + r + (c + n + s),
        t + r + c + n + s == (t + r) + c + (n + s),
        t + r + c + n + s == (t + r + c + n) + s + Seq::<u8>::empty(),
{
    assert(t + r + c + n + s =~= t + r + (c + n + s));
    assert(t + r + c + n + s =~= (t + r) + c + (n + s));
    assert(t + r + c + n + s =~= (t + r + c + n) + s + Seq::<u8>::empty());
}

proof fn lemma_hear_chain(sample_rate: u32, channels: u32, stages: Seq<StageView>)
    requires
        stages.len() <= u32::MAX,
        stages_fit(stages),
    ensures
        read_chain(request_bytes(Request::Chain { sample_rate, channels, stages })) == Some(
            Request::Chain { sample_rate, channels, stages },
        ),
{
    let b = request_bytes(Request::Chain { sample_rate, channels, stages });
    let t = tags::CHAN@;
    let r = le32(sample_rate);
    let c = le32(channels);
    let n = le32(low32(stages.len()));
    let s = stages_bytes(stages);
    let none = Seq::<u8>::empty();
    lemma_heads(t, r, c, n, s);
    assert(parse_u32(b, 4) == (Parsed::Got { value: sample_rate, end: 8int })) by {
        lemma_read_u32(t, sample_rate, c + n + s);
    }
    assert(parse_u32(b, 8) == (Parsed::Got { value: channels, end: 12int })) by {
        lemma_read_u32(t + r, channels, n + s);
    }
    assert(parse_u32(b, 12) == (Parsed::Got { value: low32(stages.len()), end: 16int })) by {
        lemma_read_u32(t + r + c, low32(stages.len()), s);
    }
    assert(parse_stages(b, 16, stages.len()) == (Parsed::Got {
        value: stages,
        end: b.len() as int,
    })) by {
        lemma_read_stages(t + r + c + n, stages, none);
    }
}

proof fn lemma_hear_load(dll: Seq<char>, sample_rate: u32, channels: u32, entry_index: u32)
    requires
        encode_utf8(dll).len() <= u32::MAX,
    ensures
        read_load(request_bytes(Request::Load { dll, sample_rate, channels, entry_index })) == Some(
            Request::Load { dll, sample_rate, channels, entry_index },
        ),
{
    let b = request_bytes(Request::Load { dll, sample_rate, channels, entry_index });
    let t = tags::LOAD@;
    let d = string_bytes(dll);
    let r = le32(sample_rate);
    let c = le32(channels);
    let e = le32(entry_index);
    let none = Seq::<u8>::empty();
    let at = 4 + d.len();
    lemma_heads(t, d, r, c, e);
    assert(t + d + r + c + e =~= (t + d + r) + c + e);
    assert(parse_string(b, 4) == (Parsed::Got { value: dll, end: at as int })) by {
        lemma_read_string(t, dll, r + c + e);
    }
    assert(parse_u32(b, at as int) == (Parsed::Got { value: sample_rate, end: at + 4int })) by {
        lemma_read_u32(t + d, sample_rate, c + e);
    }
    assert(parse_u32(b, at + 4int) == (Parsed::Got { value: channels, end: at + 8int })) by {
        lemma_read_u32(t + d + r, channels, e);
    }
    assert(parse_u32(b, at + 8int) == (Parsed::Got { value: entry_index, end: b.len() as int })) by {
        lemma_read_u32(t + d + r + c, entry_index, none);
    }
}

proof fn lemma_hear_process(frames: u32, samples: Seq<u32>, channels: u32)
    requires
        samples.len() == frames * lanes(channels),
    ensures
        read_process(request_bytes(Request::Process { frames, samples }), channels) == Some(
            Request::Process { frames, samples },
        ),
{
    let b = request_bytes(Request::Process { frames, samples });
    let none = Seq::<u8>::empty();
    lemma_read_u32(tags::PROC@, frames, samples_bytes(samples));
    lemma_read_samples(tags::PROC@ + le32(frames), samples, none);
    assert(b =~= tags::PROC@ + le32(frames) + samples_bytes(samples) + none);
}

proof fn lemma_hear_set_preset(stage: u32, blob: Seq<u8>)
    requires
        blob.len() <= u32::MAX,
    ensures
        read_set_preset(request_bytes(Request::SetPreset { stage, blob })) == Some(
            Request::SetPreset { stage, blob },
        ),
{
    let b = request_bytes(Request::SetPreset { stage, blob });
    let none = Seq::<u8>::empty();
    lemma_read_u32(tags::SPRE@, stage, blob_bytes(blob));
    lemma_read_blob(tags::SPRE@ + le32(stage), blob, none);
    assert(b =~= tags::SPRE@ + le32(stage) + blob_bytes(blob) + none);
}

proof fn lemma_hear_stage_number(tag: Seq<u8>, stage: u32)
    requires
        tag.len() == 4,
    ensures
        read_stage_number(tag + le32(stage)) == Some(stage),
{
    let none = Seq::<u8>::empty();
    lemma_read_u32(tag, stage, none);
    assert(tag + le32(stage) =~= tag + le32(stage) + none);
}

/// The tag that opens a request.
pub open spec fn request_tag(request: Request) -> tags::Tag {
    match request {
        Request::Chain { .. } => tags::CHAN,
        Request::Load { .. } => tags::LOAD,
        Request::Reset => tags::RST,
        Request::Process { .. } => tags::PROC,
        Request::Drain => tags::FLSH,
        Request::Configure { .. } => tags::CFG,
        Request::GetPreset { .. } => tags::GPRE,
        Request::SetPreset { .. } => tags::SPRE,
        Request::Quit => tags::QUIT,
    }
}

proof fn lemma_request_tag(request: Request)
    ensures
        request_bytes(request).len() >= 4,
        request_bytes(request).take(4) == request_tag(request)@,
{
    assert(request_bytes(request).take(4) =~= request_tag(request)@);
}

/// The request tags are told apart by their first two bytes.
proof fn lemma_tags_differ()
    ensures
        tags::CHAN@[0] == 0x43 && tags::CHAN@[1] == 0x48,
        tags::LOAD@[0] == 0x4C,
        tags::RST@[0] == 0x52,
        tags::PROC@[0] == 0x50,
        tags::FLSH@[0] == 0x46,
        tags::CFG@[0] == 0x43 && tags::CFG@[1] == 0x46,
        tags::GPRE@[0] == 0x47,
        tags::SPRE@[0] == 0x53,
        tags::QUIT@[0] == 0x51,
{
}

/// What the parent asks is what the worker hears: the bytes of a request make that request and
/// no other.
pub proof fn law_request_heard(request: Request, channels: u32)
    requires
        request_fits(request, channels),
    ensures
        read_request(request_bytes(request), channels) == Some(request),
{
    lemma_request_tag(request);
    lemma_tags_differ();
    match request {
        Request::Chain { sample_rate, channels, stages } => {
            lemma_hear_chain(sample_rate, channels, stages);
        },
        Request::Load { dll, sample_rate, channels, entry_index } => {
            lemma_hear_load(dll, sample_rate, channels, entry_index);
        },
        Request::Process { frames, samples } => {
            lemma_hear_process(frames, samples, channels);
        },
        Request::SetPreset { stage, blob } => {
            lemma_hear_set_preset(stage, blob);
        },
        Request::Configure { stage } => {
            lemma_hear_stage_number(tags::CFG@, stage);
        },
        Request::GetPreset { stage } => {
            lemma_hear_stage_number(tags::GPRE@, stage);
        },
        Request::Reset => {},
        Request::Drain => {},
        Request::Quit => {},
    }
}

} // verus!
