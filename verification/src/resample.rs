//! Which frames of the source a resampled frame lies between.
//!
//! A resampled frame stands at a position between two frames of the source; the samples are
//! weighted in floating point by the caller.
use vstd::prelude::*;

verus! {

/// Whether interleaved stereo of `len` samples is to be resampled at all: not where the rates are
/// one, and not where there is no frame.
pub fn needs_resampling(len: usize, from: u32, to: u32) -> (yes: bool)
    ensures
        yes == (from != to && len >= 2),
{
    from != to && len >= 2
}

/// The two frames of a source of `frames` frames that a position lies between, given the position
/// rounded down: the last frame stands for all behind it.
pub fn neighbours(position: usize, frames: usize) -> (pair: (usize, usize))
    requires
        frames >= 1,
    ensures
        pair.0 == (if position < frames {
            position as int
        } else {
            frames - 1
        }),
        pair.1 == (if position + 1 < frames {
            position + 1
        } else {
            frames - 1
        }),
{
    let last: usize = frames - 1;
    let first: usize = if position < last {
        position
    } else {
        last
    };
    let second: usize = if first < last {
        first + 1
    } else {
        last
    };
    (first, second)
}

} // verus!
