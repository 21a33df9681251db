//! RIFF/WAVE files: 16-bit PCM, as interleaved stereo.
use vstd::prelude::*;
use crate::bytes::le32_value;
use crate::frame::{read_u32, Step};
use crate::text::{decimal, decimal_of};

verus! {

/// Why a file is not read.
#[derive(Debug, Clone, Copy, PartialEq, Eq)]
pub enum WavError {
    /// It does not start as a RIFF/WAVE file does.
    NotRiffWave,
    /// Its samples have this many bits instead of 16.
    UnsupportedBits(u16),
}

impl WavError {
    /// What the error says.
    pub open spec fn message(self) -> Seq<char> {
        match self {
            WavError::NotRiffWave => "not RIFF/WAVE"@,
            WavError::UnsupportedBits(bits) => "unsupported "@ + decimal_of(bits as nat)
                + " bit WAV"@,
        }
    }

    /// What the error says.
    pub fn text(&self) -> (s: String)
        ensures
            s@ == self.message(),
    {
        match *self {
            WavError::NotRiffWave => "not RIFF/WAVE".to_string(),
            WavError::UnsupportedBits(bits) => {
                let mut s: String = "unsupported ".to_string();
                s.append(decimal(bits as u128).as_str());
                s.append(" bit WAV");
                s
            },
        }
    }
}

/// The format that a `fmt ` chunk gives.
#[derive(Debug, Clone, Copy, PartialEq, Eq)]
pub struct WavFormat {
    pub channels: u16,
    pub rate: u32,
    pub bits: u16,
}

/// The number whose two bytes, least significant first, stand in `b` at `i`.
pub open spec fn u16_at(b: Seq<u8>, i: int) -> u16 {
    (b[i] + 256 * b[i + 1]) as u16
}

/// The number whose four bytes, least significant first, stand in `b` at `i`.
pub open spec fn u32_at(b: Seq<u8>, i: int) -> u32 {
    le32_value(b.subrange(i, i + 4))
}

/// A 16-bit sample, in two's complement.
pub open spec fn i16_at(b: Seq<u8>, i: int) -> i16 {
    let x = b[i] + 256 * b[i + 1];
    if x < 32768 {
        x as i16
    } else {
        (x - 65536) as i16
    }
}

/// Whether the four bytes at `i` are these.
pub open spec fn id_at(b: Seq<u8>, i: int, id: Seq<u8>) -> bool {
    b.subrange(i, i + 4) == id
}

pub open spec fn riff_id() -> Seq<u8> {
    seq![0x52u8, 0x49, 0x46, 0x46]
}

pub open spec fn wave_id() -> Seq<u8> {
    seq![0x57u8, 0x41, 0x56, 0x45]
}

pub open spec fn fmt_id() -> Seq<u8> {
    seq![0x66u8, 0x6D, 0x74, 0x20]
}

pub open spec fn data_id() -> Seq<u8> {
    seq![0x64u8, 0x61, 0x74, 0x61]
}

/// Whether a file starts as a RIFF/WAVE file does.
pub open spec fn is_riff_wave(d: Seq<u8>) -> bool {
    d.len() >= 44 && id_at(d, 0, riff_id()) && id_at(d, 8, wave_id())
}

/// The format before any `fmt ` chunk: 16-bit stereo at 44100 Hz.
pub open spec fn default_format() -> WavFormat {
    WavFormat { channels: 2, rate: 44100, bits: 16 }
}

/// The format in a `fmt ` chunk whose body starts at `body`.
pub open spec fn format_at(d: Seq<u8>, body: int) -> WavFormat {
    WavFormat {
        channels: u16_at(d, body + 2),
        rate: u32_at(d, body + 4),
        bits: u16_at(d, body + 14),
    }
}

/// What the chunks of a file come to: the format in force, and where the audio stands, if any
/// does.
pub struct WavData {
    pub format: WavFormat,
    pub audio: Option<(int, int)>,
}

/// Where the chunk behind the one at `pos` starts: chunks have an even length.
pub open spec fn next_chunk(d: Seq<u8>, pos: int) -> int {
    let size = u32_at(d, pos + 4) as int;
    pos + 8 + size + size % 2
}

/// Walks the chunks from `pos` on, up to the first `data` chunk.
pub open spec fn walk_chunks(d: Seq<u8>, pos: int, format: WavFormat) -> WavData
    decreases
            (if pos < d.len() {
                d.len() - pos
            } else {
                0
            }),
{
    if pos + 8 > d.len() {
        WavData { format, audio: None }
    } else if id_at(d, pos, fmt_id()) && pos + 24 <= d.len() {
        walk_chunks(d, next_chunk(d, pos), format_at(d, pos + 8))
    } else if id_at(d, pos, data_id()) {
        let end = pos + 8 + u32_at(d, pos + 4);
        WavData {
            format,
            audio: Some(
                (
                    pos + 8,
                    if end <= d.len() {
                        end
                    } else {
                        d.len() as int
                    },
                ),
            ),
        }
    } else {
        walk_chunks(d, next_chunk(d, pos), format)
    }
}

/// The samples from `from` to `to`; a single byte left over at the end is none.
pub open spec fn pcm16(d: Seq<u8>, from: int, to: int) -> Seq<i16> {
    Seq::new(((to - from) / 2) as nat, |i: int| i16_at(d, from + 2 * i))
}

/// Each sample twice.
pub open spec fn doubled(samples: Seq<i16>) -> Seq<i16> {
    Seq::new(2 * samples.len(), |i: int| samples[i / 2])
}

/// The audio of a RIFF/WAVE file, interleaved stereo, and its rate: mono is doubled, more
/// channels are taken as they come.
pub open spec fn wav_of(d: Seq<u8>) -> Result<(Seq<i16>, u32), WavError> {
    if !is_riff_wave(d) {
        Err(WavError::NotRiffWave)
    } else {
        let found = walk_chunks(d, 12, default_format());
        match found.audio {
            None => Ok((seq![], found.format.rate)),
            Some((from, to)) => if found.format.bits != 16 {
                Err(WavError::UnsupportedBits(found.format.bits))
            } else if found.format.channels == 1 {
                Ok((doubled(pcm16(d, from, to)), found.format.rate))
            } else {
                Ok((pcm16(d, from, to), found.format.rate))
            },
        }
    }
}

fn check_id(d: &[u8], i: usize, a: u8, b: u8, c: u8, e: u8) -> (yes: bool)
    requires
        i + 4 <= d@.len(),
    ensures
        yes == id_at(d@, i as int, seq![a, b, c, e]),
{
    let yes: bool = d[i] == a && d[i + 1] == b && d[i + 2] == c && d[i + 3] == e;
    let ghost found = d@.subrange(i as int, i + 4);
    proof {
        if yes {
            assert(found =~= seq![a, b, c, e]);
        } else {
            assert(found[0] == d@[i as int] && found[1] == d@[i + 1] && found[2] == d@[i + 2]
                && found[3] == d@[i + 3]);
        }
    }
    yes
}

fn get_u16(d: &[u8], i: usize) -> (x: u16)
    requires
        i + 2 <= d@.len(),
    ensures
        x == u16_at(d@, i as int),
{
    d[i] as u16 + 256 * d[i + 1] as u16
}

fn get_u32(d: &[u8], i: usize) -> (x: u32)
    requires
        i + 4 <= d@.len(),
    ensures
        x == u32_at(d@, i as int),
{
    match read_u32(d, i) {
        Step::Got(x, _) => x,
        Step::More(_) => 0,
        Step::Bad(_) => 0,
    }
}

fn get_pcm16(d: &[u8], from: usize, to: usize) -> (samples: Vec<i16>)
    requires
        from <= to <= d@.len(),
    ensures
        samples@ == pcm16(d@, from as int, to as int),
{
    let mut samples: Vec<i16> = Vec::new();
    let mut at: usize = from;
    while to - at >= 2
        invariant
            from <= at <= to <= d@.len(),
            at == from + 2 * samples@.len(),
            forall|i: int|
                0 <= i < samples@.len() ==> samples@[i] == i16_at(d@, from + 2 * i),
        decreases to - at,
    {
        let x: i32 = d[at] as i32 + 256 * d[at + 1] as i32;
        let s: i16 = if x < 32768 {
            x as i16
        } else {
            (x - 65536) as i16
        };
        samples.push(s);
        at += 2;
    }
    assert(samples@ =~= pcm16(d@, from as int, to as int));
    samples
}

fn double(samples: &Vec<i16>) -> (r: Vec<i16>)
    ensures
        r@ == doubled(samples@),
{
    let mut r: Vec<i16> = Vec::new();
    let mut i: usize = 0;
    while i < samples.len()
        invariant
            i <= samples@.len(),
            r@ == doubled(samples@.take(i as int)),
        decreases samples@.len() - i,
    {
        r.push(samples[i]);
        r.push(samples[i]);
        assert(r@ =~= doubled(samples@.take(i + 1)));
        i += 1;
    }
    assert(samples@.take(i as int) =~= samples@);
    r
}

/// Reads a RIFF/WAVE file: its audio as interleaved stereo, and its rate.
pub fn read_wav(d: &[u8]) -> (r: Result<(Vec<i16>, u32), WavError>)
    ensures
        match wav_of(d@) {
            Ok((samples, rate)) => r matches Ok((s, x)) && s@ == samples && x == rate,
            Err(error) => r matches Err(e) && e == error,
        },
{
    if d.len() < 44 || !check_id(d, 0, 0x52, 0x49, 0x46, 0x46) || !check_id(
        d,
        8,
        0x57,
        0x41,
        0x56,
        0x45,
    ) {
        return Err(WavError::NotRiffWave);
    }
    let mut format: WavFormat = WavFormat { channels: 2, rate: 44100, bits: 16 };
    let mut pos: usize = 12;
    while pos <= d.len() && d.len() - pos >= 8
        invariant
            is_riff_wave(d@),
            walk_chunks(d@, 12, default_format()) == walk_chunks(d@, pos as int, format),
        decreases d@.len() - pos,
    {
        let size: u32 = get_u32(d, pos + 4);
        let body: usize = pos + 8;
        if check_id(d, pos, 0x66, 0x6D, 0x74, 0x20) && d.len() - body >= 16 {
            format = WavFormat {
                channels: get_u16(d, body + 2),
                rate: get_u32(d, body + 4),
                bits: get_u16(d, body + 14),
            };
        } else if check_id(d, pos, 0x64, 0x61, 0x74, 0x61) {
            let end: usize = if d.len() - body <= size as usize {
                d.len()
            } else {
                body + size as usize
            };
            if format.bits != 16 {
                return Err(WavError::UnsupportedBits(format.bits));
            }
            let samples: Vec<i16> = get_pcm16(d, body, end);
            if format.channels == 1 {
                return Ok((double(&samples), format.rate));
            }
            return Ok((samples, format.rate));
        }
        let step: u64 = size as u64 + size as u64 % 2;
        let left: usize = d.len() - body;
        if step > left as u64 {
            // The next chunk would start behind the end of the file.
            assert(walk_chunks(d@, next_chunk(d@, pos as int), format) == (WavData {
                format,
                audio: None,
            }));
            return Ok((Vec::new(), format.rate));
        }
        pos = body + step as usize;
    }
    Ok((Vec::new(), format.rate))
}

} // verus!
