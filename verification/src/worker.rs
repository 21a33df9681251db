//! A session with a worker: which bytes to send, which to wait for, and what they mean.
//!
//! Every request is one message out and one answer in. A method such as
//! [`Worker::build_chain`] gives the bytes to send; [`Worker::need`] then says how many bytes
//! may be read of the answer, and [`Worker::feed`] takes them, until it hands out the result.
//! Where the pipe closes instead, [`Worker::hung_up`] ends the session: that call and every
//! later one fails with [`Error::WorkerGone`].
use std::path::PathBuf;
use vstd::prelude::*;
use vstd::utf8::encode_utf8;
use crate::error::{Error, ErrorView, PeerInfo, PeerView};
use crate::frame::texts;
use crate::protocol::{
    at_least_one, bare_message, chain_message, check_stages, lanes, law_reply_within_its_end,
    load_message, low32, outcome_end, parse_reply, process_message, read_reply, request_bytes,
    set_preset_message, stage_message, stage_views, stages_fit, Awaiting, Outcome, Reading, Reply,
    ReplyView, Request, StageSpec,
};
use crate::tags;
use crate::VOCAB_VERSION;

verus! {

/// An owned path of the standard library. Nothing is known of it here: it is only carried.
#[verifier::external_type_specification]
#[verifier::external_body]
pub struct ExPathBuf(std::path::PathBuf);

/// Spawn-time options.
#[derive(Debug, Clone)]
pub struct SpawnOptions {
    /// The worker's working directory. `None` (the default) stands for the worker
    /// executable's own folder, where the worker finds `shared.dll`.
    pub working_dir: Option<PathBuf>,
    /// Capture the worker's stderr (diagnostics) instead of inheriting it.
    pub capture_stderr: bool,
}

impl Default for SpawnOptions {
    fn default() -> (opts: SpawnOptions)
        ensures
            opts.working_dir is None,
            !opts.capture_stderr,
    {
        SpawnOptions { working_dir: None, capture_stderr: false }
    }
}

/// What becomes of the worker's stderr.
#[derive(Debug, Clone, Copy, PartialEq, Eq)]
pub enum StderrMode {
    Inherit,
    Capture,
}

/// How to start the worker process.
pub struct SpawnPlan<'a> {
    /// The program to start.
    pub program: &'a PathBuf,
    /// Its arguments.
    pub args: Vec<String>,
    /// The folder to start it in.
    pub working_dir: Option<&'a PathBuf>,
    pub stderr: StderrMode,
}

/// The arguments that make the program a worker.
pub fn worker_args() -> (args: Vec<String>)
    ensures
        texts(args@) == seq!["--worker"@],
{
    let mut args: Vec<String> = Vec::new();
    args.push("--worker".to_string());
    assert(texts(args@) =~= seq!["--worker"@]);
    args
}

/// What a request came to.
#[derive(Debug, Clone, PartialEq, Eq)]
pub enum Answer {
    /// Each stage's real DSP name.
    Names(Vec<String>),
    /// The one stage's DSP name.
    Name(String),
    /// Done.
    Acked,
    /// So many frames of audio came back; the session keeps them.
    Frames(u32),
    /// So many frames of audio came back, and these are their samples.
    Audio(u32, Vec<u32>),
    /// A stage's opaque preset blob.
    Preset(Vec<u8>),
}

/// The values in an [`Answer`].
pub enum AnswerView {
    Names(Seq<Seq<char>>),
    Name(Seq<char>),
    Acked,
    Frames(u32),
    Audio(u32, Seq<u32>),
    Preset(Seq<u8>),
}

impl View for Answer {
    type V = AnswerView;

    open spec fn view(&self) -> AnswerView {
        match *self {
            Answer::Names(names) => AnswerView::Names(texts(names@)),
            Answer::Name(name) => AnswerView::Name(name@),
            Answer::Acked => AnswerView::Acked,
            Answer::Frames(frames) => AnswerView::Frames(frames),
            Answer::Audio(frames, samples) => AnswerView::Audio(frames, samples@),
            Answer::Preset(blob) => AnswerView::Preset(blob@),
        }
    }
}

/// What became of a request once more bytes of its answer had arrived.
pub enum Progress {
    /// The answer goes on.
    Waiting,
    /// The request is over.
    Over(Result<Answer, Error>),
}

/// The state of a session.
pub struct Session {
    /// Whether the worker died.
    pub gone: bool,
    /// The channel count of the chain.
    pub channels: u32,
    /// The answer that is being read.
    pub awaiting: Option<Awaiting>,
    /// What has arrived of it.
    pub received: Seq<u8>,
    /// The audio of the last block that the session kept.
    pub output: Seq<u32>,
}

impl Session {
    /// What holds of a session at all times: audio is interleaved by at least one channel, a
    /// dead worker owes no answer, nothing has arrived of an answer that is not awaited, and an
    /// awaited answer is not complete.
    pub open spec fn well_formed(self) -> bool {
        &&& self.channels >= 1
        &&& self.gone ==> self.awaiting is None
        &&& self.awaiting is None ==> self.received == Seq::<u8>::empty()
        &&& self.awaiting matches Some(awaiting) ==> parse_reply(
            awaiting,
            self.channels,
            self.received,
        ) is More
    }

    /// Ready for a request.
    pub open spec fn idle(self) -> bool {
        self.well_formed() && self.awaiting is None
    }

    /// A request was sent.
    pub open spec fn asked(self, awaiting: Awaiting) -> Session {
        Session { awaiting: Some(awaiting), received: seq![], ..self }
    }

    /// The request is over.
    pub open spec fn settled(self) -> Session {
        Session { awaiting: None, received: seq![], ..self }
    }

    /// The request was answered. A chain that was built sets the channel count; audio that the
    /// session keeps takes the place of the last block.
    pub open spec fn answered(self, reply: ReplyView) -> Session {
        match (self.awaiting, reply) {
            (Some(Awaiting::Chain { channels }), _) => Session {
                channels: lanes(channels),
                ..self.settled()
            },
            (Some(Awaiting::Load { channels }), _) => Session {
                channels: lanes(channels),
                ..self.settled()
            },
            (Some(Awaiting::Audio), ReplyView::Audio(_, samples)) => Session {
                output: samples,
                ..self.settled()
            },
            _ => self.settled(),
        }
    }

    /// The answer in the worker's reply.
    pub open spec fn answer(self, reply: ReplyView) -> AnswerView {
        match reply {
            ReplyView::Chain(names) => AnswerView::Names(names),
            ReplyView::Loaded(name) => AnswerView::Name(name),
            ReplyView::Ack => AnswerView::Acked,
            ReplyView::Audio(frames, samples) => if self.awaiting == Some(Awaiting::Audio) {
                AnswerView::Frames(frames)
            } else {
                AnswerView::Audio(frames, samples)
            },
            ReplyView::Preset(blob) => AnswerView::Preset(blob),
        }
    }

    /// What all that has arrived of the answer makes of it.
    pub open spec fn outcome(self) -> Outcome {
        parse_reply(self.awaiting->0, self.channels, self.received)
    }

    /// More bytes have arrived.
    pub open spec fn received_more(self, bytes: Seq<u8>) -> Session {
        Session { received: self.received + bytes, ..self }
    }

    /// The pipe closed.
    pub open spec fn dead(self) -> Session {
        Session { gone: true, ..self.settled() }
    }
}

/// Whether a request went out as `request`, awaiting `awaiting`: to a worker that lives, if its
/// lengths fit. To a dead one it fails and leaves the session as it was.
pub open spec fn sent(
    before: Session,
    after: Session,
    fits: bool,
    request: Request,
    awaiting: Awaiting,
    r: Result<Vec<u8>, Error>,
) -> bool {
    if before.gone {
        (r matches Err(e) && e@ == ErrorView::WorkerGone) && after == before
    } else if !fits {
        (r matches Err(e) && e@ == ErrorView::TooLong) && after == before
    } else {
        (r matches Ok(bytes) && bytes@ == request_bytes(request)) && after == before.asked(awaiting)
    }
}

/// A live worker hosting one DSP chain.
pub struct Worker {
    peer: PeerInfo,
    gone: bool,
    channels: u32,
    awaiting: Option<Awaiting>,
    received: Vec<u8>,
    out_buf: Vec<u32>,
}

impl View for Worker {
    type V = Session;

    closed spec fn view(&self) -> Session {
        Session {
            gone: self.gone,
            channels: self.channels,
            awaiting: self.awaiting,
            received: self.received@,
            output: self.out_buf@,
        }
    }
}

impl Worker {
    /// What the worker reported in the handshake.
    pub closed spec fn peer_view(&self) -> PeerView {
        self.peer@
    }

    /// How to start the worker `worker_exe`, which lies in `exe_dir`, with the default options: with
    /// the one argument `--worker`, in the executable's own folder, inheriting stderr.
    pub fn spawn<'a>(worker_exe: &'a PathBuf, exe_dir: Option<&'a PathBuf>) -> (plan: SpawnPlan<'a>)
        ensures
            plan.program == worker_exe,
            texts(plan.args@) == seq!["--worker"@],
            plan.working_dir == exe_dir,
            plan.stderr == StderrMode::Inherit,
    {
        SpawnPlan {
            program: worker_exe,
            args: worker_args(),
            working_dir: exe_dir,
            stderr: StderrMode::Inherit,
        }
    }

    /// How to start the worker `worker_exe`, which lies in `exe_dir`: with the one argument
    /// `--worker`, in the folder that the options name, and otherwise in the executable's own.
    pub fn spawn_with<'a>(
        worker_exe: &'a PathBuf,
        exe_dir: Option<&'a PathBuf>,
        opts: &'a SpawnOptions,
    ) -> (plan: SpawnPlan<'a>)
        ensures
            plan.program == worker_exe,
            texts(plan.args@) == seq!["--worker"@],
            plan.working_dir == (match opts.working_dir {
                Some(dir) => Some(&dir),
                None => exe_dir,
            }),
            plan.stderr == (if opts.capture_stderr {
                StderrMode::Capture
            } else {
                StderrMode::Inherit
            }),
    {
        let stderr: StderrMode = if opts.capture_stderr {
            StderrMode::Capture
        } else {
            StderrMode::Inherit
        };
        let working_dir: Option<&'a PathBuf> = match &opts.working_dir {
            Some(dir) => Some(dir),
            None => exe_dir,
        };
        SpawnPlan { program: worker_exe, args: worker_args(), working_dir, stderr }
    }

    /// The session that the transport handshake opens, in a chain of two channels, when the
    /// worker speaks exactly this side's transport and vocabulary. Otherwise, and where the
    /// handshake itself failed, the error says why, and the process must be killed: a mismatched
    /// or broken worker is not left running.
    pub fn greet(transport_version: u32, handshake: Result<PeerInfo, Error>) -> (r: Result<
        Worker,
        Error,
    >)
        ensures
            match handshake {
                Ok(peer) => if peer.transport_version == transport_version && peer.vocab_version
                    == VOCAB_VERSION {
                    &&& r is Ok
                    &&& r->Ok_0@.idle()
                    &&& r->Ok_0@ == (Session {
                        gone: false,
                        channels: 2,
                        awaiting: None,
                        received: seq![],
                        output: seq![],
                    })
                    &&& r->Ok_0.peer_view() == peer@
                } else {
                    r matches Err(e) && e@ == (ErrorView::Handshake {
                        transport_version,
                        vocab_version: VOCAB_VERSION,
                        peer: peer@,
                    })
                },
                Err(e) => r == Err::<Worker, Error>(e),
            },
    {
        match handshake {
            Ok(peer) => if peer.transport_version == transport_version && peer.vocab_version
                == VOCAB_VERSION {
                Ok(
                    Worker {
                        peer,
                        gone: false,
                        channels: 2,
                        awaiting: None,
                        received: Vec::new(),
                        out_buf: Vec::new(),
                    },
                )
            } else {
                Err(Error::Handshake { transport_version, vocab_version: VOCAB_VERSION, peer })
            },
            Err(e) => Err(e),
        }
    }

    /// What the worker reported in the handshake.
    pub fn peer(&self) -> (peer: &PeerInfo)
        ensures
            peer@ == self.peer_view(),
    {
        &self.peer
    }

    /// Whether the worker died.
    pub fn is_gone(&self) -> (gone: bool)
        ensures
            gone == self@.gone,
    {
        self.gone
    }

    /// Whether no answer is awaited.
    pub fn is_idle(&self) -> (idle: bool)
        requires
            self@.well_formed(),
        ensures
            idle == self@.idle(),
    {
        match self.awaiting {
            Some(_) => false,
            None => true,
        }
    }

    /// The channel count of the chain.
    pub fn channels(&self) -> (channels: u32)
        ensures
            channels == self@.channels,
    {
        self.channels
    }

    /// The audio of the last block that [`Worker::process`] or [`Worker::drain`] brought back.
    pub fn output(&self) -> (samples: &[u32])
        ensures
            samples@ == self@.output,
    {
        self.out_buf.as_slice()
    }

    fn ask(&mut self, awaiting: Awaiting)
        requires
            old(self)@.idle(),
            !old(self)@.gone,
        ensures
            final(self)@.well_formed(),
            final(self)@ == old(self)@.asked(awaiting),
            final(self).peer_view() == old(self).peer_view(),
    {
        self.awaiting = Some(awaiting);
        self.received = Vec::new();
        assert(self@.received =~= seq![]);
    }

    /// Builds a chain of these stages (replaces any current chain); the answer is each stage's
    /// real DSP name. A failing stage fails the whole build.
    pub fn build_chain(&mut self, sample_rate: u32, channels: u32, stages: &[StageSpec]) -> (r:
        Result<Vec<u8>, Error>)
        requires
            old(self)@.idle(),
        ensures
            final(self)@.well_formed(),
            final(self).peer_view() == old(self).peer_view(),
            sent(
                old(self)@,
                final(self)@,
                stages_fit(stage_views(stages@)),
                Request::Chain { sample_rate, channels, stages: stage_views(stages@) },
                Awaiting::Chain { channels },
                r,
            ),
    {
        if self.gone {
            return Err(Error::WorkerGone);
        }
        if !check_stages(stages) {
            return Err(Error::TooLong);
        }
        self.ask(Awaiting::Chain { channels });
        Ok(chain_message(sample_rate, channels, stages))
    }

    /// Sets the chain to a single stage with the entry's default preset; the answer is the DSP's
    /// name.
    pub fn load_single(&mut self, dll: &str, sample_rate: u32, channels: u32, entry_index: u32) -> (r:
        Result<Vec<u8>, Error>)
        requires
            old(self)@.idle(),
        ensures
            final(self)@.well_formed(),
            final(self).peer_view() == old(self).peer_view(),
            sent(
                old(self)@,
                final(self)@,
                encode_utf8(dll@).len() <= u32::MAX,
                Request::Load { dll: dll@, sample_rate, channels, entry_index },
                Awaiting::Load { channels },
                r,
            ),
    {
        if self.gone {
            return Err(Error::WorkerGone);
        }
        if dll.as_bytes().len() > u32::MAX as usize {
            return Err(Error::TooLong);
        }
        self.ask(Awaiting::Load { channels });
        Ok(load_message(dll, sample_rate, channels, entry_index))
    }

    /// Drops the instantiated DSPs; the next block re-instantiates the whole chain fresh. The
    /// chain configuration is kept.
    pub fn reset(&mut self) -> (r: Result<Vec<u8>, Error>)
        requires
            old(self)@.idle(),
        ensures
            final(self)@.well_formed(),
            final(self).peer_view() == old(self).peer_view(),
            sent(old(self)@, final(self)@, true, Request::Reset, Awaiting::Ack, r),
    {
        if self.gone {
            return Err(Error::WorkerGone);
        }
        self.ask(Awaiting::Ack);
        Ok(bare_message(tags::RST))
    }

    fn write_proc(&mut self, samples: Option<&[u32]>, awaiting: Awaiting) -> (r: Result<
        Vec<u8>,
        Error,
    >)
        requires
            old(self)@.idle(),
            samples matches Some(s) ==> s@.len() % old(self)@.channels as nat == 0,
        ensures
            final(self)@.well_formed(),
            final(self).peer_view() == old(self).peer_view(),
            sent(
                old(self)@,
                final(self)@,
                true,
                match samples {
                    Some(s) => block_request(old(self)@, s@),
                    None => Request::Drain,
                },
                awaiting,
                r,
            ),
    {
        if self.gone {
            return Err(Error::WorkerGone);
        }
        let channels: u32 = self.channels;
        self.ask(awaiting);
        match samples {
            Some(s) => {
                let frames: u64 = s.len() as u64 / channels as u64;
                let frames: u32 = (frames % 0x1_0000_0000) as u32;
                Ok(process_message(frames, s))
            },
            None => Ok(bare_message(tags::FLSH)),
        }
    }

    /// Streams one interleaved block through the whole chain; the session keeps what comes back
    /// (see [`Worker::output`]). The number of frames may differ from that of the block.
    pub fn process(&mut self, samples: &[u32]) -> (r: Result<Vec<u8>, Error>)
        requires
            old(self)@.idle(),
            samples@.len() % old(self)@.channels as nat == 0,
        ensures
            final(self)@.well_formed(),
            final(self).peer_view() == old(self).peer_view(),
            sent(
                old(self)@,
                final(self)@,
                true,
                block_request(old(self)@, samples@),
                Awaiting::Audio,
                r,
            ),
    {
        self.write_proc(Some(samples), Awaiting::Audio)
    }

    /// [`Worker::process`], except that the answer holds what comes back.
    pub fn process_into(&mut self, samples: &[u32]) -> (r: Result<Vec<u8>, Error>)
        requires
            old(self)@.idle(),
            samples@.len() % old(self)@.channels as nat == 0,
        ensures
            final(self)@.well_formed(),
            final(self).peer_view() == old(self).peer_view(),
            sent(
                old(self)@,
                final(self)@,
                true,
                block_request(old(self)@, samples@),
                Awaiting::AudioInto,
                r,
            ),
    {
        self.write_proc(Some(samples), Awaiting::AudioInto)
    }

    /// End-of-stream drain: every stage emits its buffered tail, which the session keeps.
    pub fn drain(&mut self) -> (r: Result<Vec<u8>, Error>)
        requires
            old(self)@.idle(),
        ensures
            final(self)@.well_formed(),
            final(self).peer_view() == old(self).peer_view(),
            sent(old(self)@, final(self)@, true, Request::Drain, Awaiting::Audio, r),
    {
        self.write_proc(None, Awaiting::Audio)
    }

    /// [`Worker::drain`], except that the answer holds the tail.
    pub fn drain_into(&mut self) -> (r: Result<Vec<u8>, Error>)
        requires
            old(self)@.idle(),
        ensures
            final(self)@.well_formed(),
            final(self).peer_view() == old(self).peer_view(),
            sent(old(self)@, final(self)@, true, Request::Drain, Awaiting::AudioInto, r),
    {
        self.write_proc(None, Awaiting::AudioInto)
    }

    /// Opens a stage's own configuration dialog, applies the result to the chain; the answer is
    /// the resulting opaque preset blob. The answer comes when the user closes the dialog.
    pub fn configure(&mut self, stage: u32) -> (r: Result<Vec<u8>, Error>)
        requires
            old(self)@.idle(),
        ensures
            final(self)@.well_formed(),
            final(self).peer_view() == old(self).peer_view(),
            sent(old(self)@, final(self)@, true, Request::Configure { stage }, Awaiting::Preset, r),
    {
        if self.gone {
            return Err(Error::WorkerGone);
        }
        self.ask(Awaiting::Preset);
        Ok(stage_message(tags::CFG, stage))
    }

    /// Reads a stage's current opaque preset blob (no dialog).
    pub fn get_preset(&mut self, stage: u32) -> (r: Result<Vec<u8>, Error>)
        requires
            old(self)@.idle(),
        ensures
            final(self)@.well_formed(),
            final(self).peer_view() == old(self).peer_view(),
            sent(old(self)@, final(self)@, true, Request::GetPreset { stage }, Awaiting::Preset, r),
    {
        if self.gone {
            return Err(Error::WorkerGone);
        }
        self.ask(Awaiting::Preset);
        Ok(stage_message(tags::GPRE, stage))
    }

    /// Sets a stage's preset from an opaque blob (the rest of the chain is kept).
    pub fn set_preset(&mut self, stage: u32, blob: &[u8]) -> (r: Result<Vec<u8>, Error>)
        requires
            old(self)@.idle(),
        ensures
            final(self)@.well_formed(),
            final(self).peer_view() == old(self).peer_view(),
            sent(
                old(self)@,
                final(self)@,
                blob@.len() <= u32::MAX,
                Request::SetPreset { stage, blob: blob@ },
                Awaiting::Ack,
                r,
            ),
    {
        if self.gone {
            return Err(Error::WorkerGone);
        }
        if blob.len() > u32::MAX as usize {
            return Err(Error::TooLong);
        }
        self.ask(Awaiting::Ack);
        Ok(set_preset_message(stage, blob))
    }

    /// Graceful shutdown: the message that makes the worker exit. No answer follows it.
    pub fn quit(self) -> (bytes: Vec<u8>)
        ensures
            bytes@ == request_bytes(Request::Quit),
    {
        bare_message(tags::QUIT)
    }

    /// How many bytes may be read of the awaited answer without running past its end; 0 when
    /// none is awaited.
    pub fn need(&self) -> (n: usize)
        requires
            self@.well_formed(),
        ensures
            self@.awaiting is None ==> n == 0,
            self@.awaiting is Some ==> n >= 1 && (self@.outcome() matches Outcome::More(k) && n == (
            if k <= usize::MAX {
                k
            } else {
                usize::MAX as int
            })),
    {
        match self.awaiting {
            None => 0,
            Some(awaiting) => match read_reply(awaiting, self.channels, self.received.as_slice()) {
                Reading::More(n) => {
                    proof {
                        lemma_more_is_some(awaiting, self.channels, self.received@);
                    }
                    n
                },
                Reading::Done(_, _) => 0,
                Reading::Failed(_, _) => 0,
            },
        }
    }

    /// Takes bytes of the awaited answer, at most as many as [`Worker::need`] says.
    pub fn feed(&mut self, bytes: &[u8]) -> (progress: Progress)
        requires
            old(self)@.well_formed(),
            old(self)@.awaiting is Some,
            old(self)@.outcome() matches Outcome::More(k) && bytes@.len() <= k,
        ensures
            final(self)@.well_formed(),
            final(self).peer_view() == old(self).peer_view(),
            ({
                let now = old(self)@.received_more(bytes@);
                match now.outcome() {
                    Outcome::More(_) => progress is Waiting && final(self)@ == now,
                    Outcome::Done { reply, end } => {
                        &&& end == now.received.len()
                        &&& progress matches Progress::Over(Ok(a)) && a@ == now.answer(reply)
                        &&& final(self)@ == now.answered(reply)
                    },
                    Outcome::Failed { error, end } => {
                        &&& end == now.received.len()
                        &&& progress matches Progress::Over(Err(e)) && e@ == error
                        &&& final(self)@ == now.settled()
                    },
                }
            }),
    {
        let awaiting: Awaiting = match self.awaiting {
            Some(awaiting) => awaiting,
            None => {
                return Progress::Waiting;
            },
        };
        let ghost now = self@.received_more(bytes@);
        crate::frame::append_bytes(&mut self.received, bytes);
        proof {
            assert(self@ == now);
            lemma_no_overrun(awaiting, self.channels, old(self)@.received, bytes@);
        }
        match read_reply(awaiting, self.channels, self.received.as_slice()) {
            Reading::More(_) => Progress::Waiting,
            Reading::Failed(error, _) => {
                self.awaiting = None;
                self.received = Vec::new();
                assert(self@.received =~= seq![]);
                Progress::Over(Err(error))
            },
            Reading::Done(reply, _) => {
                self.awaiting = None;
                self.received = Vec::new();
                assert(self@.received =~= seq![]);
                match awaiting {
                    Awaiting::Chain { channels } => {
                        self.channels = at_least_one(channels);
                    },
                    Awaiting::Load { channels } => {
                        self.channels = at_least_one(channels);
                    },
                    _ => {},
                }
                let answer: Answer = match reply {
                    Reply::Chain(names) => Answer::Names(names),
                    Reply::Loaded(name) => Answer::Name(name),
                    Reply::Ack => Answer::Acked,
                    Reply::Audio(frames, samples) => match awaiting {
                        Awaiting::Audio => {
                            self.out_buf = samples;
                            Answer::Frames(frames)
                        },
                        _ => Answer::Audio(frames, samples),
                    },
                    Reply::Preset(blob) => Answer::Preset(blob),
                };
                Progress::Over(Ok(answer))
            },
        }
    }

    /// The pipe closed: the worker is gone, and with it the awaited answer.
    pub fn hung_up(&mut self) -> (e: Error)
        ensures
            e@ == ErrorView::WorkerGone,
            final(self)@ == old(self)@.dead(),
            old(self)@.channels >= 1 ==> final(self)@.well_formed(),
            final(self).peer_view() == old(self).peer_view(),
    {
        self.gone = true;
        self.awaiting = None;
        self.received = Vec::new();
        assert(self@.received =~= seq![]);
        Error::WorkerGone
    }
}

/// The request that streams these samples through the chain.
pub open spec fn block_request(session: Session, samples: Seq<u32>) -> Request {
    Request::Process { frames: low32(samples.len() / session.channels as nat), samples }
}

/// A demand for more bytes is for at least one.
proof fn lemma_more_is_some(awaiting: Awaiting, channels: u32, b: Seq<u8>)
    ensures
        parse_reply(awaiting, channels, b) matches Outcome::More(n) ==> n >= 1,
{
    if b.len() >= 4 {
        if let crate::frame::Parsed::Got { value, end } = crate::frame::parse_u32(b, 4) {
            crate::frame::lemma_strings_bounds(b, end, value as nat);
        }
    }
}

/// Bytes that were asked for never run past the end of the answer.
proof fn lemma_no_overrun(awaiting: Awaiting, channels: u32, had: Seq<u8>, bytes: Seq<u8>)
    requires
        parse_reply(awaiting, channels, had) matches Outcome::More(k) && bytes.len() <= k,
    ensures
        outcome_end(parse_reply(awaiting, channels, had + bytes)) matches Some(end) ==> end == (had
            + bytes).len(),
{
    let all = had + bytes;
    if outcome_end(parse_reply(awaiting, channels, all)) is Some {
        law_reply_within_its_end(awaiting, channels, all, had.len() as int);
        law_reply_within_its_end(awaiting, channels, all, all.len() as int);
        assert(all.take(had.len() as int) =~= had);
    }
}

} // verus!
