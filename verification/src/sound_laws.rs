//! Which samples go where: decoding, playing, streaming.
use vstd::prelude::*;
use crate::decode::{frame_count, stereo_of, Packet, StereoTrack};
use crate::playback::{speaker, Cursor, Heard, Meters, Speaker};
use crate::resample::{needs_resampling, neighbours};
use crate::streaming::{blocks_from, frames_at, preprocess, Run, Step};
use crate::wav::{read_wav, walk_chunks, WavError, WavFormat};
use crate::wire_laws::{lemma_number_at, number_at};

verus! {

/// How many frames samples make, of `width` samples each; one that is cut short counts.
pub open spec fn make_frames(samples: int, width: int, frames: int) -> bool {
    &&& frames >= 0
    &&& samples <= frames * width
    &&& frames > 0 ==> (frames - 1) * width < samples
}

proof fn lemma_frames(samples: int, width: int, frames: int)
    requires
        width >= 1,
        samples >= 0,
        make_frames(samples, width, frames),
    ensures
        frame_count(samples, width) == frames,
{
    let rest = samples + width - 1 - frames * width;
    assert(0 <= rest < width) by (nonlinear_arith)
        requires
            rest == samples + width - 1 - frames * width,
            width >= 1,
            samples >= 0,
            samples <= frames * width,
            frames >= 0,
            frames > 0 ==> (frames - 1) * width < samples,
    ;
    assert(samples + width - 1 == frames * width + rest);
    vstd::arithmetic::div_mod::lemma_fundamental_div_mod_converse(
        samples + width - 1,
        width,
        frames,
        rest,
    );
}

/// Of each frame of a packet of the track, the first two samples are taken, or the only one twice,
/// behind what was there; then decoding goes on until 90 seconds of stereo are there.
pub proof fn law_packet_is_taken(
    t: &mut StereoTrack,
    packet: &Packet,
    go_on: bool,
    width: int,
    frames: int,
)
    requires
        call_ensures(StereoTrack::take, (t, packet), go_on),
        packet.track == old(t).track(),
        packet.decoded is Some,
        width == (if packet.decoded->0.channels >= 1 {
            packet.decoded->0.channels as int
        } else {
            1
        }),
        make_frames(packet.decoded->0.samples@.len() as int, width, frames),
    ensures
        ({
            let (was, now) = (old(t).samples(), final(t).samples());
            let audio = packet.decoded->0.samples@;
            let n = was.len() as int;
            &&& now.len() == n + 2 * frames
            &&& forall|i: int| 0 <= i < n ==> #[trigger] now[i] == was[i]
            &&& forall|f: int|
                0 <= f < frames ==> (#[trigger] now[n + 2 * f]) == audio[f * width] && now[n + 2 * f
                    + 1] == audio[f * width + if width > 1 {
                    1int
                } else {
                    0
                }]
            &&& go_on <==> now.len() < 180 * final(t).rate()
        }),
        final(t).rate() == old(t).rate(),
        final(t).track() == old(t).track(),
{
    let audio = packet.decoded->0.samples@;
    lemma_frames(audio.len() as int, width, frames);
    let more = stereo_of(audio, width);
    let (was, now) = (old(t).samples(), final(t).samples());
    let n = was.len() as int;
    assert(now == was + more);
    assert forall|f: int| 0 <= f < frames implies (#[trigger] now[n + 2 * f]) == audio[f * width]
        && now[n + 2 * f + 1] == audio[f * width + if width > 1 {
        1int
    } else {
        0
    }] by {
        assert(now[n + 2 * f] == more[2 * f]);
        assert(now[n + 2 * f + 1] == more[2 * f + 1]);
        assert((2 * f) / 2 == f && (2 * f + 1) / 2 == f && (2 * f) % 2 == 0 && (2 * f + 1) % 2 == 1);
    }
}

/// A packet of another track is passed over; one that could not be decoded adds nothing.
pub proof fn law_packet_is_passed_over(t: &mut StereoTrack, packet: &Packet, go_on: bool)
    requires
        call_ensures(StereoTrack::take, (t, packet), go_on),
        packet.track != old(t).track() || packet.decoded is None,
    ensures
        final(t).samples() == old(t).samples(),
        final(t).rate() == old(t).rate(),
        final(t).track() == old(t).track(),
        packet.track != old(t).track() ==> go_on,
        packet.track == old(t).track() ==> (go_on <==> old(t).samples().len() < 180 * old(
            t,
        ).rate()),
{
    assert(final(t).samples() =~= old(t).samples());
}

/// A track starts empty, at the rate of its codec or at 44100 Hz, and ends as what was taken.
pub proof fn law_track_begins_and_ends(
    id: u32,
    rate: Option<u32>,
    new_track: StereoTrack,
    t: StereoTrack,
    r: Option<(Vec<u32>, u32)>,
)
    requires
        call_ensures(StereoTrack::new, (id, rate), new_track),
        call_ensures(StereoTrack::finish, (t,), r),
    ensures
        new_track.samples().len() == 0,
        new_track.track() == id,
        rate matches Some(x) ==> new_track.rate() == x,
        rate is None ==> new_track.rate() == 44100,
        t.samples().len() == 0 ==> r is None,
        t.samples().len() > 0 ==> r is Some && r->Some_0.0@ == t.samples() && r->Some_0.1 == t.rate(),
{
}

/// Nothing is resampled where the rates are one or there is no frame. Otherwise a position lies
/// between its frame and the next, neither of them behind the last.
pub proof fn law_resampling(
    len: usize,
    from: u32,
    to: u32,
    yes: bool,
    position: usize,
    frames: usize,
    pair: (usize, usize),
)
    requires
        call_ensures(needs_resampling, (len, from, to), yes),
        call_ensures(neighbours, (position, frames), pair),
        frames >= 1,
    ensures
        yes <==> from != to && len >= 2,
        position + 1 < frames ==> pair.0 == position && pair.1 == position + 1,
        position + 1 >= frames ==> pair.0 == frames - 1 && pair.1 == frames - 1,
{
}

/// While paused nothing is heard, and position and meters stay.
pub proof fn law_paused(
    bypass: bool,
    pos: usize,
    raw_len: usize,
    processed_len: usize,
    heard: Heard,
    channel: usize,
    sample: Option<usize>,
    at: usize,
    shown: Meters,
    measured: Meters,
    meters: Meters,
)
    requires
        call_ensures(Heard::new, (false, bypass, pos, raw_len, processed_len), heard),
        call_ensures(Heard::sample, (&heard, channel), sample),
        call_ensures(Heard::position, (&heard, pos), at),
        call_ensures(Heard::meters, (&heard, shown, measured), meters),
    ensures
        sample is None,
        at == pos,
        meters == shown,
{
}

/// A buffer without a frame is not heard: the position stays, and the meters show nothing.
pub proof fn law_no_frame_to_play(
    bypass: bool,
    pos: usize,
    raw_len: usize,
    processed_len: usize,
    heard: Heard,
    channel: usize,
    sample: Option<usize>,
    at: usize,
    shown: Meters,
    measured: Meters,
    meters: Meters,
)
    requires
        call_ensures(Heard::new, (true, bypass, pos, raw_len, processed_len), heard),
        call_ensures(Heard::sample, (&heard, channel), sample),
        call_ensures(Heard::position, (&heard, pos), at),
        call_ensures(Heard::meters, (&heard, shown, measured), meters),
        bypass ==> raw_len < 2,
        !bypass ==> processed_len < 2,
    ensures
        sample is None,
        at == pos,
        meters.input == 0 && meters.output == 0,
{
}

/// Playing is in the source under bypass and otherwise in what was processed, at the frame of the
/// position, counted round the buffer. The first channel gets the frame's left sample, the second
/// the right one, or the left where the buffer ends in half a frame, and any other nothing; the
/// meters show what was measured.
pub proof fn law_playing(
    bypass: bool,
    pos: usize,
    raw_len: usize,
    processed_len: usize,
    n: usize,
    heard: Heard,
    left: Option<usize>,
    right: Option<usize>,
    channel: usize,
    other: Option<usize>,
    at: usize,
    pair: Option<(usize, usize)>,
    shown: Meters,
    measured: Meters,
    meters: Meters,
)
    requires
        n == (if bypass {
            raw_len
        } else {
            processed_len
        }),
        n >= 2,
        channel >= 2,
        call_ensures(Heard::new, (true, bypass, pos, raw_len, processed_len), heard),
        call_ensures(Heard::sample, (&heard, 0usize), left),
        call_ensures(Heard::sample, (&heard, 1usize), right),
        call_ensures(Heard::sample, (&heard, channel), other),
        call_ensures(Heard::position, (&heard, pos), at),
        call_ensures(Heard::metered, (&heard, raw_len), pair),
        call_ensures(Heard::meters, (&heard, shown, measured), meters),
    ensures
        heard matches Heard::Play { raw, .. } && raw == bypass,
        at < n && at % 2 == 0 && (at == pos % n || at + 1 == pos % n),
        left == Some(at),
        at + 1 < n ==> right == Some((at + 1) as usize),
        at + 1 == n ==> right == Some(at),
        other is None,
        raw_len >= 2 ==> pair is Some && pair->Some_0.0 == at % raw_len && pair->Some_0.1 == (at + 1) % (
        raw_len as int),
        raw_len < 2 ==> pair is None,
        meters == measured,
{
}

/// Playing goes on by a frame and from the last to the first, in the same buffer.
pub proof fn law_playing_goes_on(heard: &mut Heard, raw: bool, cursor: Cursor, pos: usize, at: usize)
    requires
        call_ensures(Heard::advance, (heard,), ()),
        *old(heard) == (Heard::Play { raw, cursor }),
        call_ensures(Heard::position, (&*final(heard), pos), at),
    ensures
        *final(heard) matches Heard::Play { raw: r, cursor: c } && r == raw && c.len() == cursor.len(),
        cursor.at() + 2 < cursor.len() ==> at == cursor.at() + 2,
        cursor.at() + 2 >= cursor.len() ==> at == 0,
{
}

/// What is not played does not go on.
pub proof fn law_silence_stays(heard: &mut Heard)
    requires
        call_ensures(Heard::advance, (heard,), ()),
        !(*old(heard) is Play),
    ensures
        *final(heard) == *old(heard),
{
}

/// A cursor stands at an even sample, the one it was given counted round the buffer; it plays the
/// sample there and the next one, meters the source at the same place counted round that, and goes
/// on by two samples.
pub proof fn law_cursor(
    pos: usize,
    n: usize,
    made: Option<Cursor>,
    c: Cursor,
    left: usize,
    right: usize,
    raw_len: usize,
    pair: Option<(usize, usize)>,
    moved: &mut Cursor,
    channel: usize,
    to: Speaker,
)
    requires
        call_ensures(Cursor::new, (pos, n), made),
        call_ensures(Cursor::left, (&c,), left),
        call_ensures(Cursor::right, (&c,), right),
        call_ensures(Cursor::metered, (&c, raw_len), pair),
        call_ensures(Cursor::advance, (moved,), ()),
        call_ensures(speaker, (channel,), to),
    ensures
        n < 2 ==> made is None,
        n >= 2 ==> made is Some && made->0.len() == n && made->0.at() % 2 == 0 && (made->0.at()
            == pos % n || made->0.at() + 1 == pos % n),
        left == c.at(),
        c.at() + 1 < c.len() ==> right == c.at() + 1,
        c.at() + 1 >= c.len() ==> right == c.at(),
        raw_len >= 2 ==> pair is Some && pair->Some_0.0 == c.at() % raw_len && pair->Some_0.1 == (c.at() + 1)
            % (raw_len as int),
        raw_len < 2 ==> pair is None,
        final(moved).len() == old(moved).len(),
        old(moved).at() + 2 < old(moved).len() ==> final(moved).at() == old(moved).at() + 2,
        old(moved).at() + 2 >= old(moved).len() ==> final(moved).at() == 0,
        channel == 0 ==> to is Left,
        channel == 1 ==> to is Right,
        channel >= 2 ==> to is Silent,
{
}

proof fn lemma_blocks(len: int, i: int, blocks: int)
    requires
        0 <= i <= len <= usize::MAX,
        i % 2 == 0,
        ({
            let left = len - len % 2 - i;
            &&& blocks >= 0
            &&& left <= 16384 * blocks
            &&& blocks > 0 ==> 16384 * (blocks - 1) < left
        }),
    ensures
        blocks_from(len, i).len() == blocks,
        forall|k: int|
            0 <= k < blocks ==> (#[trigger] blocks_from(len, i)[k]) == (Step::Process {
                from: (i + 16384 * k) as usize,
                to: (if i + 16384 * (k + 1) <= len - len % 2 {
                    i + 16384 * (k + 1)
                } else {
                    len - len % 2
                }) as usize,
            }),
    decreases len - i,
{
    if blocks > 0 {
        let next = i + 2 * frames_at(len, i);
        lemma_blocks(len, next, blocks - 1);
        let all = blocks_from(len, i);
        let rest = blocks_from(len, next);
        assert forall|k: int| 0 <= k < blocks implies (#[trigger] all[k]) == (Step::Process {
            from: (i + 16384 * k) as usize,
            to: (if i + 16384 * (k + 1) <= len - len % 2 {
                i + 16384 * (k + 1)
            } else {
                len - len % 2
            }) as usize,
        }) by {
            if k > 0 {
                assert(all[k] == rest[k - 1]);
            }
        }
    }
}

/// A track is streamed in blocks of 8192 frames, one behind the other, the last as long as what is
/// left of its whole frames; before them the chain is reset, and behind them drained.
pub proof fn law_steps_over_a_track(len: usize, steps: Vec<Step>, even: int, blocks: int)
    requires
        call_ensures(preprocess, (len,), steps),
        even == len - len % 2,
        blocks >= 0,
        even <= 16384 * blocks,
        blocks > 0 ==> 16384 * (blocks - 1) < even,
    ensures
        steps@.len() == blocks + 2,
        steps@[0] == Step::Reset,
        steps@[blocks + 1] == Step::Drain,
        forall|k: int|
            0 <= k < blocks ==> (#[trigger] steps@[k + 1]) == (Step::Process {
                from: (16384 * k) as usize,
                to: (if 16384 * (k + 1) <= even {
                    16384 * (k + 1)
                } else {
                    even
                }) as usize,
            }),
{
    lemma_blocks(len as int, 0, blocks);
    let all = blocks_from(len as int, 0);
    assert forall|k: int| 0 <= k < blocks implies (#[trigger] steps@[k + 1]) == all[k] by {}
}

/// A run takes the steps of its track one after the other. What a step brings back is joined behind
/// what came before; a failure adds nothing, leaves no step, and is what the run comes to.
pub proof fn law_run_goes_on<E>(
    len: usize,
    steps: Vec<Step>,
    new_run: Run<E>,
    run: &mut Run<E>,
    reply: Result<Vec<u32>, E>,
    next: Option<Step>,
)
    requires
        call_ensures(preprocess, (len,), steps),
        call_ensures(Run::<E>::new, (len,), new_run),
        call_ensures(Run::<E>::on_done, (run, reply), next),
        old(run)@.left.len() > 0,
    ensures
        new_run@.left == steps@ && new_run@.out.len() == 0 && new_run@.failed is None,
        reply matches Ok(audio) ==> {
            &&& final(run)@.left.len() == old(run)@.left.len() - 1
            &&& forall|k: int|
                0 <= k < final(run)@.left.len() ==> #[trigger] final(run)@.left[k] == old(
                    run,
                )@.left[k + 1]
            &&& final(run)@.out == old(run)@.out + audio@
            &&& final(run)@.failed == old(run)@.failed
        },
        reply matches Err(e) ==> {
            &&& final(run)@.left.len() == 0
            &&& final(run)@.out == old(run)@.out
            &&& final(run)@.failed == Some(e)
        },
        final(run)@.left.len() == 0 ==> next is None,
        final(run)@.left.len() > 0 ==> next == Some(final(run)@.left[0]),
{
}

/// A run that is over comes to all that came back, or to its failure.
pub proof fn law_run_is_over<E>(
    run: Run<E>,
    result: Result<Vec<u32>, E>,
    other: &Run<E>,
    step: Option<Step>,
)
    requires
        call_ensures(Run::<E>::finish, (run,), result),
        call_ensures(Run::<E>::next, (other,), step),
    ensures
        run@.failed is None ==> result is Ok && result->Ok_0@ == run@.out,
        run@.failed matches Some(e) ==> result == Err::<Vec<u32>, E>(e),
        other@.left.len() == 0 ==> step is None,
        other@.left.len() > 0 ==> step == Some(other@.left[0]),
{
}

/// Whether these four letters, given by their numbers, stand at `at`.
pub open spec fn letters_at(d: Seq<u8>, at: int, l0: u8, l1: u8, l2: u8, l3: u8) -> bool {
    &&& 0 <= at <= d.len() - 4
    &&& d[at] == l0 && d[at + 1] == l1 && d[at + 2] == l2 && d[at + 3] == l3
}

/// Whether a `fmt ` chunk with all its fields stands at `at`.
pub open spec fn is_format(d: Seq<u8>, at: int) -> bool {
    letters_at(d, at, 0x66, 0x6D, 0x74, 0x20) && at + 24 <= d.len()
}

/// Whether a `data` chunk stands at `at`.
pub open spec fn is_data(d: Seq<u8>, at: int) -> bool {
    letters_at(d, at, 0x64, 0x61, 0x74, 0x61) && at + 8 <= d.len()
}

/// Whether a format is the one in the `fmt ` chunk at `at`.
pub open spec fn is_format_of(d: Seq<u8>, at: int, format: WavFormat) -> bool {
    &&& format.channels == d[at + 10] + 256 * d[at + 11]
    &&& number_at(d, at + 12, format.rate as int)
    &&& format.bits == d[at + 22] + 256 * d[at + 23]
}

/// Whether these are the starts of the chunks of a file, from the first on, none but perhaps the last
/// of them `data`, and these the formats in force at each: 16-bit stereo at 44100 Hz, until a `fmt `
/// chunk says otherwise. A chunk has its letters, its size and that many bytes, and one more where
/// the size is odd.
pub open spec fn are_chunks(d: Seq<u8>, starts: Seq<int>, formats: Seq<WavFormat>) -> bool {
    &&& starts.len() >= 1
    &&& formats.len() == starts.len()
    &&& starts[0] == 12
    &&& formats[0].channels == 2 && formats[0].rate == 44100 && formats[0].bits == 16
    &&& forall|i: int|
        0 <= i < starts.len() - 1 ==> chunk_leads_on(
            d,
            #[trigger] starts[i],
            starts[i + 1],
            formats[i],
            formats[i + 1],
        )
}

/// Whether the chunk at `at` leads on to that at `next`, and from one format to another.
pub open spec fn chunk_leads_on(
    d: Seq<u8>,
    at: int,
    next: int,
    format: WavFormat,
    then_format: WavFormat,
) -> bool {
    &&& 0 <= at <= d.len() - 8
    &&& !is_data(d, at)
    &&& ({
        let size = d[at + 4] + 256 * d[at + 5] + 65536 * d[at + 6] + 16777216 * d[at + 7];
        next == at + 8 + size + size % 2
    })
    &&& is_format(d, at) ==> is_format_of(d, at, then_format)
    &&& !is_format(d, at) ==> then_format == format
}

proof fn lemma_id(d: Seq<u8>, at: int, l0: u8, l1: u8, l2: u8, l3: u8)
    requires
        0 <= at <= d.len() - 4,
    ensures
        letters_at(d, at, l0, l1, l2, l3) <==> crate::wav::id_at(d, at, seq![l0, l1, l2, l3]),
{
    let w = d.subrange(at, at + 4);
    assert(w[0] == d[at] && w[1] == d[at + 1] && w[2] == d[at + 2] && w[3] == d[at + 3]);
    if letters_at(d, at, l0, l1, l2, l3) {
        assert(w =~= seq![l0, l1, l2, l3]);
    }
}

proof fn lemma_walk(d: Seq<u8>, starts: Seq<int>, formats: Seq<WavFormat>, i: int)
    requires
        are_chunks(d, starts, formats),
        0 <= i < starts.len(),
    ensures
        walk_chunks(d, 12, crate::wav::default_format()) == walk_chunks(d, starts[i], formats[i]),
    decreases i,
{
    if i > 0 {
        lemma_walk(d, starts, formats, i - 1);
        let at = starts[i - 1];
        assert(chunk_leads_on(d, at, starts[i - 1 + 1], formats[i - 1], formats[i - 1 + 1]));
        lemma_id(d, at, 0x66, 0x6D, 0x74, 0x20);
        lemma_id(d, at, 0x64, 0x61, 0x74, 0x61);
        lemma_number_at(d, at + 4, 0);
        if is_format(d, at) {
            lemma_number_at(d, at + 12, 0);
            assert(crate::wav::format_at(d, at + 8) == formats[i]);
        }
    }
}

/// What is not a RIFF/WAVE file is not read.
pub proof fn law_other_files(d: &[u8], r: Result<(Vec<i16>, u32), WavError>)
    requires
        call_ensures(read_wav, (d,), r),
        d@.len() < 44 || !letters_at(d@, 0, 0x52, 0x49, 0x46, 0x46) || !letters_at(
            d@,
            8,
            0x57,
            0x41,
            0x56,
            0x45,
        ),
    ensures
        r matches Err(e) && e is NotRiffWave,
{
    if d@.len() >= 44 {
        lemma_id(d@, 0, 0x52, 0x49, 0x46, 0x46);
        lemma_id(d@, 8, 0x57, 0x41, 0x56, 0x45);
    }
}

/// Whether a sample is the one whose two bytes stand at `at`, in two's complement.
pub open spec fn is_sample_at(d: Seq<u8>, at: int, sample: i16) -> bool {
    let x = d[at] + 256 * d[at + 1];
    sample == (if x < 0x8000 {
        x
    } else {
        x - 0x1_0000
    })
}

/// The audio of a file is that of its first `data` chunk, as far as it is there, two bytes a sample,
/// in the format in force: mono is doubled, and other sizes than 16 bits are refused.
pub proof fn law_wav_audio(
    d: &[u8],
    r: Result<(Vec<i16>, u32), WavError>,
    starts: Seq<int>,
    formats: Seq<WavFormat>,
    count: int,
)
    requires
        call_ensures(read_wav, (d,), r),
        d@.len() >= 44,
        letters_at(d@, 0, 0x52, 0x49, 0x46, 0x46),
        letters_at(d@, 8, 0x57, 0x41, 0x56, 0x45),
        are_chunks(d@, starts, formats),
        is_data(d@, starts.last()),
        ({
            let at = starts.last();
            let size = d@[at + 4] + 256 * d@[at + 5] + 65536 * d@[at + 6] + 16777216 * d@[at + 7];
            let there = if at + 8 + size <= d@.len() {
                size
            } else {
                d@.len() - at - 8
            };
            there == 2 * count || there == 2 * count + 1
        }),
    ensures
        ({
            let body = starts.last() + 8;
            let format = formats.last();
            &&& format.bits != 16 ==> (r matches Err(e) && e == WavError::UnsupportedBits(
                format.bits,
            ))
            &&& format.bits == 16 ==> r is Ok && r->Ok_0.1 == format.rate
            &&& format.bits == 16 && format.channels != 1 ==> {
                &&& r->Ok_0.0@.len() == count
                &&& forall|i: int|
                    0 <= i < count ==> is_sample_at(d@, body + 2 * i, #[trigger] r->Ok_0.0@[i])
            }
            &&& format.bits == 16 && format.channels == 1 ==> {
                &&& r->Ok_0.0@.len() == 2 * count
                &&& forall|i: int|
                    0 <= i < count ==> is_sample_at(
                        d@,
                        body + 2 * i,
                        #[trigger] r->Ok_0.0@[2 * i],
                    ) && r->Ok_0.0@[2 * i + 1] == r->Ok_0.0@[2 * i]
            }
        }),
{
    let n = starts.len() - 1;
    let at = starts[n];
    lemma_id(d@, 0, 0x52, 0x49, 0x46, 0x46);
    lemma_id(d@, 8, 0x57, 0x41, 0x56, 0x45);
    lemma_walk(d@, starts, formats, n);
    lemma_id(d@, at, 0x66, 0x6D, 0x74, 0x20);
    lemma_id(d@, at, 0x64, 0x61, 0x74, 0x61);
    lemma_number_at(d@, at + 4, 0);
    let found = walk_chunks(d@, 12, crate::wav::default_format());
    assert(found.format == formats[n]);
    let (from, to) = found.audio->0;
    assert(from == at + 8 && (to - from) / 2 == count);
}

/// A file without a `data` chunk has no audio, at the rate in force at its end.
pub proof fn law_wav_without_audio(
    d: &[u8],
    r: Result<(Vec<i16>, u32), WavError>,
    starts: Seq<int>,
    formats: Seq<WavFormat>,
)
    requires
        call_ensures(read_wav, (d,), r),
        d@.len() >= 44,
        letters_at(d@, 0, 0x52, 0x49, 0x46, 0x46),
        letters_at(d@, 8, 0x57, 0x41, 0x56, 0x45),
        are_chunks(d@, starts, formats),
        starts.last() + 8 > d@.len(),
    ensures
        r is Ok,
        r->Ok_0.0@.len() == 0,
        r->Ok_0.1 == formats.last().rate,
{
    lemma_id(d@, 0, 0x52, 0x49, 0x46, 0x46);
    lemma_id(d@, 8, 0x57, 0x41, 0x56, 0x45);
    lemma_walk(d@, starts, formats, starts.len() - 1);
}

} // verus!
