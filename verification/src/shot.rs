//! Taking a picture of the rack: when to ask for it, and when to give up.
use vstd::prelude::*;

verus! {

/// Frames that a ready chain is shown for before the picture is taken.
pub const SETTLE_FRAMES: u32 = 24;

/// Frames after which the picture is taken though no chain is ready.
pub const READY_FRAMES: u32 = 1200;

/// Frames after which a picture that did not come is given up.
pub const GIVE_UP_FRAMES: u32 = 1800;

/// How far it has come.
#[derive(Debug, Clone, Copy, PartialEq, Eq)]
pub enum ShotPhase {
    /// The chain is being prepared.
    Preparing,
    /// The picture was asked for.
    Requested,
    /// The picture came, or was given up.
    Done,
}

/// What to do in a frame.
#[derive(Debug, Clone, Copy, PartialEq, Eq)]
pub enum ShotAction {
    Wait,
    /// Ask for a picture of the next frame.
    Request,
    /// Write the picture to its file and exit with status 0.
    Save,
    /// Exit with status 2.
    GiveUp,
}

/// A picture that is being taken.
#[derive(Debug, Clone, Copy, PartialEq, Eq)]
pub struct Shot {
    phase: ShotPhase,
    /// The frames so far.
    frames: u32,
}

impl Shot {
    /// How far it has come.
    pub closed spec fn phase(self) -> ShotPhase {
        self.phase
    }

    /// The frames so far.
    pub closed spec fn frames(self) -> u32 {
        self.frames
    }

    /// The counts that a picture can have come to.
    pub open spec fn well_formed(self) -> bool {
        match self.phase() {
            ShotPhase::Preparing => self.frames() <= READY_FRAMES,
            ShotPhase::Requested => self.frames() <= GIVE_UP_FRAMES,
            ShotPhase::Done => true,
        }
    }

    /// A picture to be taken.
    pub fn new() -> (shot: Shot)
        ensures
            shot.well_formed(),
            shot.phase() == ShotPhase::Preparing,
            shot.frames() == 0,
    {
        Shot { phase: ShotPhase::Preparing, frames: 0 }
    }

    /// A frame goes by. Gives whether the processed audio is to be shown as chosen, and what to do.
    pub fn frame(&mut self, ready: bool, picture: bool) -> (r: (bool, ShotAction))
        requires
            old(self).well_formed(),
        ensures
            final(self).well_formed(),
            r.0 == (old(self).phase() == ShotPhase::Preparing && ready),
            final(self).frames() == (if old(self).phase() == ShotPhase::Done {
                old(self).frames() as int
            } else {
                old(self).frames() + 1
            }),
            match old(self).phase() {
                ShotPhase::Preparing => if (ready && final(self).frames() > 24)
                    || final(self).frames() > 1200 {
                    r.1 == ShotAction::Request && final(self).phase() == ShotPhase::Requested
                } else {
                    r.1 == ShotAction::Wait && final(self).phase() == ShotPhase::Preparing
                },
                ShotPhase::Requested => if picture {
                    r.1 == ShotAction::Save && final(self).phase() == ShotPhase::Done
                } else if final(self).frames() > 1800 {
                    r.1 == ShotAction::GiveUp && final(self).phase() == ShotPhase::Done
                } else {
                    r.1 == ShotAction::Wait && final(self).phase() == ShotPhase::Requested
                },
                ShotPhase::Done => r.1 == ShotAction::Wait && final(self).phase()
                    == ShotPhase::Done,
            },
    {
        match self.phase {
            ShotPhase::Preparing => {
                self.frames = self.frames + 1;
                if (ready && self.frames > SETTLE_FRAMES) || self.frames > READY_FRAMES {
                    self.phase = ShotPhase::Requested;
                    (ready, ShotAction::Request)
                } else {
                    (ready, ShotAction::Wait)
                }
            },
            ShotPhase::Requested => {
                self.frames = self.frames + 1;
                if picture {
                    self.phase = ShotPhase::Done;
                    (false, ShotAction::Save)
                } else if self.frames > GIVE_UP_FRAMES {
                    self.phase = ShotPhase::Done;
                    (false, ShotAction::GiveUp)
                } else {
                    (false, ShotAction::Wait)
                }
            },
            ShotPhase::Done => (false, ShotAction::Wait),
        }
    }
}

/// Every frame counts until the end, so the end comes within 1801 frames.
pub proof fn law_shot_comes_to_an_end(shot: Shot)
    requires
        shot.well_formed(),
        shot.frames() >= 1801,
    ensures
        shot.phase() == ShotPhase::Done,
{
}

} // verus!
