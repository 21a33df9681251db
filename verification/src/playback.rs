//! Which samples are played when: a loop over an interleaved stereo buffer.
use vstd::prelude::*;

verus! {

/// How many frames a buffer of `n` samples loops over; a single sample left over is a frame.
pub open spec fn loop_frames(n: int) -> int {
    (n + 1) / 2
}

/// Where playing is in a buffer of samples.
#[derive(Debug, Clone, Copy, PartialEq, Eq)]
pub struct Cursor {
    /// The buffer's length.
    n: usize,
    /// The left sample of the frame that is played next.
    p: usize,
}

impl Cursor {
    /// The buffer's length.
    pub closed spec fn len(self) -> usize {
        self.n
    }

    /// The left sample of the frame that is played next.
    pub closed spec fn at(self) -> usize {
        self.p
    }

    /// A frame starts at an even sample within the buffer, which holds at least one frame.
    pub open spec fn well_formed(self) -> bool {
        self.len() >= 2 && self.at() < self.len() && self.at() % 2 == 0
    }

    /// The cursor at which playing goes on in a buffer of `n` samples, where it was at `pos`
    /// before, perhaps in another buffer. A buffer without a frame is not played.
    pub fn new(pos: usize, n: usize) -> (cursor: Option<Cursor>)
        ensures
            cursor is Some <==> n >= 2,
            cursor matches Some(c) ==> c.well_formed() && c.len() == n && c.at() == pos % n - pos % n
                % 2,
    {
        if n < 2 {
            return None;
        }
        let p: usize = pos % n;
        if p % 2 == 1 {
            Some(Cursor { n, p: p - 1 })
        } else {
            Some(Cursor { n, p })
        }
    }

    /// The left sample of the frame.
    pub fn left(&self) -> (i: usize)
        ensures
            i == self.at(),
    {
        self.p
    }

    /// The right sample of the frame; the left one where the buffer ends in half a frame.
    pub fn right(&self) -> (i: usize)
        requires
            self.well_formed(),
        ensures
            i == (if self.at() + 1 < self.len() {
                self.at() + 1
            } else {
                self.at() as int
            }),
            i < self.len(),
    {
        if self.n - self.p > 1 {
            self.p + 1
        } else {
            self.p
        }
    }

    /// The two samples of the source track, of `rn` samples, that are metered with the frame;
    /// none where the track has no frame.
    pub fn metered(&self, rn: usize) -> (pair: Option<(usize, usize)>)
        requires
            self.well_formed(),
        ensures
            pair is Some <==> rn >= 2,
            pair matches Some((l, r)) ==> l == self.at() % rn && r == (self.at() + 1) % (rn as int),
    {
        if rn < 2 {
            return None;
        }
        let l: usize = self.p % rn;
        let r: usize = (self.p + 1) % rn;
        Some((l, r))
    }

    /// Goes on to the next frame, and from the last to the first.
    pub fn advance(&mut self)
        requires
            old(self).well_formed(),
        ensures
            final(self).well_formed(),
            final(self).len() == old(self).len(),
            final(self).at() == (if old(self).at() + 2 < old(self).len() {
                old(self).at() + 2
            } else {
                0
            }),
    {
        if self.n - self.p > 2 {
            self.p += 2;
        } else {
            self.p = 0;
        }
    }
}

/// Which sample of a frame a device channel plays.
#[derive(Debug, Clone, Copy, PartialEq, Eq)]
pub enum Speaker {
    Left,
    Right,
    Silent,
}

/// The first channel plays left, the second right, and any other nothing.
pub fn speaker(channel: usize) -> (s: Speaker)
    ensures
        s == (if channel == 0 {
            Speaker::Left
        } else if channel == 1 {
            Speaker::Right
        } else {
            Speaker::Silent
        }),
{
    if channel == 0 {
        Speaker::Left
    } else if channel == 1 {
        Speaker::Right
    } else {
        Speaker::Silent
    }
}

/// What the device hears.
#[derive(Debug, Clone, Copy, PartialEq, Eq)]
pub enum Heard {
    /// Nothing: playing is paused.
    Paused,
    /// Nothing: the buffer that would be played has no frame.
    TooShort,
    /// The source, where `raw` holds, or else what was processed, from the cursor on.
    Play { raw: bool, cursor: Cursor },
}

/// The levels that are shown for the source and for what is played, as bit patterns of `f32` values.
#[derive(Debug, Clone, Copy, PartialEq, Eq)]
pub struct Meters {
    pub input: u32,
    pub output: u32,
}

impl Heard {
    /// What is played, is played from a frame of its buffer on.
    pub open spec fn well_formed(self) -> bool {
        self matches Heard::Play { cursor, .. } ==> cursor.well_formed()
    }

    /// What is heard of a source of `raw_len` samples and a processed track of `processed_len`
    /// samples, where playing was at `pos`: nothing while paused, the source under bypass, and
    /// otherwise what was processed.
    pub fn new(playing: bool, bypass: bool, pos: usize, raw_len: usize, processed_len: usize) -> (heard:
        Heard)
        ensures
            heard.well_formed(),
            ({
                let n = if bypass {
                    raw_len
                } else {
                    processed_len
                };
                if !playing {
                    heard == Heard::Paused
                } else if n < 2 {
                    heard == Heard::TooShort
                } else {
                    heard matches Heard::Play { raw, cursor } && raw == bypass && cursor.len() == n
                        && cursor.at() == pos % n - pos % n % 2
                }
            }),
    {
        if !playing {
            return Heard::Paused;
        }
        let n: usize = if bypass {
            raw_len
        } else {
            processed_len
        };
        match Cursor::new(pos, n) {
            Some(cursor) => Heard::Play { raw: bypass, cursor },
            None => Heard::TooShort,
        }
    }

    /// Which sample of the played buffer a device channel gets in this frame; none is silence.
    pub fn sample(&self, channel: usize) -> (index: Option<usize>)
        requires
            self.well_formed(),
        ensures
            match *self {
                Heard::Play { cursor, .. } => {
                    &&& index is Some <==> channel < 2
                    &&& index matches Some(i) ==> i < cursor.len() && i == (if channel == 1
                        && cursor.at() + 1 < cursor.len() {
                        cursor.at() + 1
                    } else {
                        cursor.at() as int
                    })
                },
                _ => index is None,
            },
    {
        match self {
            Heard::Play { cursor, .. } => match speaker(channel) {
                Speaker::Left => Some(cursor.left()),
                Speaker::Right => Some(cursor.right()),
                Speaker::Silent => None,
            },
            _ => None,
        }
    }

    /// The two samples of the source, of `raw_len` samples, that are metered with this frame; none
    /// where nothing is played or the source has no frame.
    pub fn metered(&self, raw_len: usize) -> (pair: Option<(usize, usize)>)
        requires
            self.well_formed(),
        ensures
            match *self {
                Heard::Play { cursor, .. } => {
                    &&& pair is Some <==> raw_len >= 2
                    &&& pair matches Some((l, r)) ==> l == cursor.at() % raw_len && r == (cursor.at()
                        + 1) % (raw_len as int)
                },
                _ => pair is None,
            },
    {
        match self {
            Heard::Play { cursor, .. } => cursor.metered(raw_len),
            _ => None,
        }
    }

    /// Goes on to the next frame.
    pub fn advance(&mut self)
        requires
            old(self).well_formed(),
        ensures
            final(self).well_formed(),
            match *old(self) {
                Heard::Play { raw, cursor } => {
                    &&& *final(self) matches Heard::Play { raw: r, cursor: c } && r == raw && c.len()
                        == cursor.len() && c.at() == (if cursor.at() + 2 < cursor.len() {
                        cursor.at() + 2
                    } else {
                        0
                    })
                },
                _ => *final(self) == *old(self),
            },
    {
        if let Heard::Play { raw, cursor } = *self {
            let mut cursor: Cursor = cursor;
            cursor.advance();
            *self = Heard::Play { raw, cursor };
        }
    }

    /// Where playing is now, if it was at `pos`: nothing that is not played moves it.
    pub fn position(&self, pos: usize) -> (at: usize)
        ensures
            at == (match *self {
                Heard::Play { cursor, .. } => cursor.at(),
                _ => pos,
            }),
    {
        match self {
            Heard::Play { cursor, .. } => cursor.left(),
            _ => pos,
        }
    }

    /// The levels to show, if these were shown and those were measured: what they were while
    /// paused, and zero where the buffer has no frame.
    pub fn meters(&self, shown: Meters, measured: Meters) -> (meters: Meters)
        ensures
            meters == (match *self {
                Heard::Paused => shown,
                Heard::TooShort => (Meters { input: 0, output: 0 }),
                Heard::Play { .. } => measured,
            }),
    {
        match self {
            Heard::Paused => shown,
            Heard::TooShort => Meters { input: 0, output: 0 },
            Heard::Play { .. } => measured,
        }
    }
}

/// Where a cursor of a buffer of `n` samples is after `k` frames from `p`.
pub open spec fn after_frames(n: int, p: int, k: nat) -> int
    decreases k,
{
    if k == 0 {
        p
    } else {
        let q = after_frames(n, p, (k - 1) as nat);
        if q + 2 < n {
            q + 2
        } else {
            0
        }
    }
}

/// Playing goes round: `k` frames on, the cursor is at the frame that many further, counted round
/// the loop. So every frame is played, in order, once a round.
pub proof fn law_playing_goes_round(n: int, p: int, k: nat)
    requires
        n >= 2,
        0 <= p < n,
        p % 2 == 0,
    ensures
        after_frames(n, p, k) == 2 * ((p / 2 + k) % loop_frames(n)),
    decreases k,
{
    let m = loop_frames(n);
    if k == 0 {
        vstd::arithmetic::div_mod::lemma_small_mod((p / 2) as nat, m as nat);
    } else {
        let j = (k - 1) as nat;
        law_playing_goes_round(n, p, j);
        let f = (p / 2 + j) % m;
        assert(0 <= f < m) by {
            vstd::arithmetic::div_mod::lemma_mod_bound(p / 2 + j, m);
        }
        vstd::arithmetic::div_mod::lemma_add_mod_noop(p / 2 + j, 1, m);
        if f + 1 < m {
            vstd::arithmetic::div_mod::lemma_small_mod((f + 1) as nat, m as nat);
            vstd::arithmetic::div_mod::lemma_small_mod(1, m as nat);
        } else {
            vstd::arithmetic::div_mod::lemma_mod_self_0(m);
            if m > 1 {
                vstd::arithmetic::div_mod::lemma_small_mod(1, m as nat);
            }
        }
    }
}

} // verus!
