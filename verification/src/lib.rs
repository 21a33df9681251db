//! Host real foobar2000 DSP components outside foobar2000.
//!
//! A DSP component runs in a worker process of its own, so that a crash in it is contained. This
//! library holds what the parent of such a worker decides and computes:
//!
//! - [`worker`] is a session with a worker: it makes the bytes of each request, reads the bytes of
//!   each answer as they arrive, and says what the request came to. Whoever holds the worker's pipes
//!   carries the bytes. [`protocol`], [`frame`], [`bytes`], [`tags`] and [`error`] are the wire
//!   format beneath it, and [`worker_side`] is how a worker reads it. [`session_laws`] says what
//!   holds of every session.
//! - [`pe`] and [`files`] tell components and their companions apart, and [`components`] lists them.
//! - The rest is the lab, a rack of components played over a loop: [`rack`], [`engine`], [`chain`],
//!   [`output`], [`streaming`], [`playback`], [`decode`], [`resample`], [`wav`], [`status`],
//!   [`choice`], [`selftest`], [`args`], and a picture of it: [`shot`], [`png`].
//! - What each operation does, in terms of its inputs and results alone, stands in [`wire_laws`] and
//!   [`answer_laws`] byte by byte, and in [`turn_laws`], [`rack_laws`], [`file_laws`], [`start_laws`],
//!   [`sound_laws`], [`picture_laws`] and [`text_laws`]; [`engine_laws`] says what holds of any course
//!   of events.
//!
//! Audio samples are carried as the bit patterns of `f32` values.
use vstd::prelude::*;

pub mod answer_laws;
pub mod args;
pub mod bytes;
pub mod chain;
pub mod checksum;
pub mod choice;
pub mod components;
pub mod decode;
pub mod engine;
pub mod engine_laws;
pub mod error;
pub mod file_laws;
pub mod files;
pub mod frame;
pub mod output;
pub mod pe;
pub mod picture_laws;
pub mod playback;
pub mod png;
pub mod png_reader;
pub mod protocol;
pub mod rack;
pub mod rack_laws;
pub mod resample;
pub mod selftest;
pub mod session_laws;
pub mod shot;
pub mod sound_laws;
pub mod start_laws;
pub mod status;
pub mod streaming;
pub mod tags;
pub mod text;
pub mod text_laws;
pub mod turn_laws;
pub mod wav;
pub mod worker;
pub mod worker_side;
pub mod wire_laws;

pub use error::{Error, PeerInfo};
pub use files::stage_companion_dlls;
pub use pe::{dll_arch, PeArch};
pub use protocol::StageSpec;
pub use worker::{SpawnOptions, Worker};

verus! {

/// Version of this worker's command vocabulary, exchanged in the transport handshake.
pub const VOCAB_VERSION: u32 = 1;

/// The worker binary's file name (per-architecture copies live in their own folders).
pub const WORKER_EXE_NAME: &'static str = "foo_dsp_host.exe";

} // verus!
