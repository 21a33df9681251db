//! Gathering decoded audio as interleaved stereo.
//!
//! A sample is the bit pattern of an `f32`, carried as a `u32`.
use vstd::prelude::*;

verus! {

/// How many seconds of a track are kept at most, about.
pub const MAX_SECONDS: u64 = 90;

/// The number of frames of `channels` samples each that `count` samples make; a frame that is
/// cut short counts.
pub open spec fn frame_count(count: int, channels: int) -> int {
    (count + channels - 1) / channels
}

/// Frames of `channels` samples each as stereo: the first two channels, or the only one twice.
pub open spec fn stereo_of(samples: Seq<u32>, channels: int) -> Seq<u32> {
    Seq::new(
        (2 * frame_count(samples.len() as int, channels)) as nat,
        |i: int| samples[i / 2 * channels + if channels > 1 {
            i % 2
        } else {
            0
        }],
    )
}

/// What a decoder made of a packet: frames of `channels` samples each.
pub struct Decoded {
    pub channels: usize,
    pub samples: Vec<u32>,
}

impl Decoded {
    /// The number of samples in a frame: at least one.
    pub open spec fn width(&self) -> int {
        if self.channels == 0 {
            1
        } else {
            self.channels as int
        }
    }

    /// A last frame that is cut short still holds the two samples that are taken of it.
    pub open spec fn well_formed(&self) -> bool {
        self.channels > 1 ==> self.samples@.len() % self.channels as nat != 1
    }
}

/// A packet of a file: the track that it belongs to, and its audio, where it could be decoded.
pub struct Packet {
    pub track: u32,
    pub decoded: Option<Decoded>,
}

/// The audio in a packet, for one who listens to `track`.
pub open spec fn audio_of(packet: Packet, track: u32) -> Seq<u32> {
    match packet.decoded {
        Some(decoded) if packet.track == track => stereo_of(decoded.samples@, decoded.width()),
        _ => seq![],
    }
}

/// Audio that is being decoded.
pub struct StereoTrack {
    samples: Vec<u32>,
    track: u32,
    rate: u32,
}

impl StereoTrack {
    /// The samples so far.
    pub closed spec fn samples(&self) -> Seq<u32> {
        self.samples@
    }

    /// The sample rate.
    pub closed spec fn rate(&self) -> u32 {
        self.rate
    }

    /// The track in its file.
    pub closed spec fn track(&self) -> u32 {
        self.track
    }

    /// Whether enough of the track is there.
    pub open spec fn full(&self) -> bool {
        self.samples().len() >= 90 * self.rate() * 2
    }

    /// A track with no audio yet, at the rate that its codec gives, or else 44100 Hz.
    pub fn new(track: u32, rate: Option<u32>) -> (r: StereoTrack)
        ensures
            r.samples() == Seq::<u32>::empty(),
            r.track() == track,
            r.rate() == (match rate {
                Some(rate) => rate,
                None => 44100,
            }),
    {
        let rate: u32 = match rate {
            Some(rate) => rate,
            None => 44100,
        };
        StereoTrack { samples: Vec::new(), track, rate }
    }

    /// Takes the next packet of the file, and says whether to go on. Packets of other tracks and
    /// those that could not be decoded are passed over; after one of this track, decoding ends
    /// once the track is full.
    pub fn take(&mut self, packet: &Packet) -> (go_on: bool)
        requires
            packet.decoded matches Some(decoded) ==> decoded.well_formed(),
        ensures
            final(self).samples() == old(self).samples() + audio_of(*packet, old(self).track()),
            final(self).track() == old(self).track(),
            final(self).rate() == old(self).rate(),
            go_on == (packet.track != old(self).track() || !final(self).full()),
    {
        let ghost had = self.samples@;
        if packet.track != self.track {
            assert(self.samples@ =~= had + audio_of(*packet, self.track));
            return true;
        }
        match &packet.decoded {
            Some(decoded) => {
                let channels: usize = if decoded.channels == 0 {
                    1
                } else {
                    decoded.channels
                };
                self.push(decoded.samples.as_slice(), channels);
            },
            None => {
                assert(self.samples@ =~= had + audio_of(*packet, self.track));
            },
        }
        !(self.samples.len() as u64 >= MAX_SECONDS * self.rate as u64 * 2)
    }

    fn push(&mut self, frames: &[u32], channels: usize)
        requires
            channels >= 1,
            channels > 1 ==> frames@.len() % channels as nat != 1,
        ensures
            final(self).samples() == old(self).samples() + stereo_of(frames@, channels as int),
            final(self).track() == old(self).track(),
            final(self).rate() == old(self).rate(),
    {
        let ghost had = self.samples@;
        let ghost all = stereo_of(frames@, channels as int);
        let mut at: usize = 0;
        let ghost mut f: int = 0;
        proof {
            if frames@.len() == 0 {
                vstd::arithmetic::div_mod::lemma_basic_div(channels - 1, channels as int);
            }
        }
        while at < frames.len()
            invariant
                channels >= 1,
                channels > 1 ==> frames@.len() % channels as nat != 1,
                all == stereo_of(frames@, channels as int),
                0 <= f,
                at == (if f * channels <= frames@.len() {
                    f * channels
                } else {
                    frames@.len() as int
                }),
                2 * f <= all.len(),
                at == frames@.len() ==> 2 * f == all.len(),
                self.samples@ == had + all.take(2 * f),
                self.rate == old(self).rate,
                self.track == old(self).track,
            decreases frames@.len() - at,
        {
            proof {
                lemma_frame(frames@.len() as int, channels as int, f);
            }
            let l: u32 = frames[at];
            let r: u32 = if channels > 1 {
                frames[at + 1]
            } else {
                l
            };
            self.samples.push(l);
            self.samples.push(r);
            proof {
                assert(all[2 * f] == l);
                assert(all[2 * f + 1] == r);
                assert(self.samples@ =~= had + all.take(2 * (f + 1)));
                f = f + 1;
            }
            at = if frames.len() - at <= channels {
                frames.len()
            } else {
                at + channels
            };
        }
        assert(all.take(2 * f) =~= all);
    }

    /// The track and its rate; none where nothing was decoded.
    pub fn finish(self) -> (r: Option<(Vec<u32>, u32)>)
        ensures
            r is Some <==> self.samples().len() > 0,
            r matches Some((samples, rate)) ==> samples@ == self.samples() && rate == self.rate(),
    {
        if self.samples.len() == 0 {
            None
        } else {
            Some((self.samples, self.rate))
        }
    }
}

/// A frame that starts within the samples is one of those that are counted, and holds the samples
/// that are taken of it.
proof fn lemma_frame(count: int, channels: int, f: int)
    requires
        channels >= 1,
        channels > 1 ==> count % channels != 1,
        0 <= f,
        f * channels < count,
    ensures
        f < frame_count(count, channels),
        channels > 1 ==> f * channels + 1 < count,
        (f + 1) * channels >= count ==> f + 1 == frame_count(count, channels),
        (f + 1) * channels == f * channels + channels,
{
    let n = frame_count(count, channels);
    assert((f + 1) * channels == f * channels + channels) by (nonlinear_arith);
    vstd::arithmetic::div_mod::lemma_fundamental_div_mod(count + channels - 1, channels);
    let rest = (count + channels - 1) % channels;
    assert(0 <= rest < channels) by {
        vstd::arithmetic::div_mod::lemma_mod_bound(count + channels - 1, channels);
    }
    assert(channels * n + rest == count + channels - 1);
    assert(f < n) by (nonlinear_arith)
        requires
            channels >= 1,
            channels * n + rest == count + channels - 1,
            0 <= rest < channels,
            f * channels < count,
    ;
    if (f + 1) * channels >= count {
        assert(n <= f + 1) by (nonlinear_arith)
            requires
                channels >= 1,
                channels * n + rest == count + channels - 1,
                0 <= rest < channels,
                (f + 1) * channels >= count,
        ;
    }
    if channels > 1 && f * channels + 1 >= count {
        assert(count == f * channels + 1);
        vstd::arithmetic::div_mod::lemma_mod_multiples_vanish(f, 1, channels);
        vstd::arithmetic::div_mod::lemma_small_mod(1, channels as nat);
        assert(channels * f + 1 == count) by (nonlinear_arith)
            requires
                count == f * channels + 1,
        ;
    }
}

} // verus!
