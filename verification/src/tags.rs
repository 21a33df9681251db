//! Request and reply tags of the worker vocabulary.
//!
//! A tag is exactly four ASCII bytes; the short ones are padded with spaces.
use vstd::prelude::*;

verus! {

/// The four ASCII bytes that open every message.
pub type Tag = [u8; 4];

/// `CHAN`: build a chain of stages.
pub const CHAN: Tag = [0x43, 0x48, 0x41, 0x4E];

/// `LOAD`: set the chain to one stage with its default preset.
pub const LOAD: Tag = [0x4C, 0x4F, 0x41, 0x44];

/// `RST `: drop the instantiated DSPs, keep the chain configuration.
pub const RST: Tag = [0x52, 0x53, 0x54, 0x20];

/// `PROC`: stream one audio block through the whole chain.
pub const PROC: Tag = [0x50, 0x52, 0x4F, 0x43];

/// `FLSH`: end of stream, drain every stage's tail.
pub const FLSH: Tag = [0x46, 0x4C, 0x53, 0x48];

/// `CFG `: open a stage's own configuration dialog.
pub const CFG: Tag = [0x43, 0x46, 0x47, 0x20];

/// `GPRE`: get a stage's preset.
pub const GPRE: Tag = [0x47, 0x50, 0x52, 0x45];

/// `SPRE`: set a stage's preset.
pub const SPRE: Tag = [0x53, 0x50, 0x52, 0x45];

/// `QUIT`: exit the worker.
pub const QUIT: Tag = [0x51, 0x55, 0x49, 0x54];

/// `COK `: the chain was built.
pub const COK: Tag = [0x43, 0x4F, 0x4B, 0x20];

/// `LOK `: the single-stage chain was set.
pub const LOK: Tag = [0x4C, 0x4F, 0x4B, 0x20];

/// `OK  `: generic acknowledgement.
pub const OK: Tag = [0x4F, 0x4B, 0x20, 0x20];

/// `POK `: processed audio.
pub const POK: Tag = [0x50, 0x4F, 0x4B, 0x20];

/// `PRE `: a stage's preset blob.
pub const PRE: Tag = [0x50, 0x52, 0x45, 0x20];

/// `ERR `: the preceding request failed; the worker stays alive.
pub const ERR: Tag = [0x45, 0x52, 0x52, 0x20];

/// Whether two tags are the same four bytes.
pub fn tag_eq(a: Tag, b: Tag) -> (same: bool)
    ensures
        same == (a@ == b@),
{
    let same: bool = a[0] == b[0] && a[1] == b[1] && a[2] == b[2] && a[3] == b[3];
    proof {
        if same {
            assert(a@ =~= b@);
        }
    }
    same
}

} // verus!
