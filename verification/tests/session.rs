use std::path::PathBuf;

use foobar_dsp_host::chain::{ask_for_chain, stage_specs};
use foobar_dsp_host::error::{Error, PeerInfo};
use foobar_dsp_host::frame;
use foobar_dsp_host::frame::Step;
use foobar_dsp_host::protocol::StageSpec;
use foobar_dsp_host::tags;
use foobar_dsp_host::worker::{Answer, Progress, SpawnOptions, StderrMode, Worker};
use foobar_dsp_host::VOCAB_VERSION;

const TRANSPORT_VERSION: u32 = 1;
const REF_DLL: &str = r"C:\ref_dsp\foo_dsp_ref.dll";

/// A worker in memory that hosts gains of x0.5, and nothing else.
struct Host {
    gains: usize,
    channels: usize,
    presets: Vec<Vec<u8>>,
}

fn got<T>(step: Step<T>) -> (T, usize) {
    match step {
        Step::Got(value, end) => (value, end),
        Step::More(n) => panic!("{n} more bytes wanted"),
        Step::Bad(end) => panic!("bad item before {end}"),
    }
}

impl Host {
    fn new() -> Host {
        Host { gains: 0, channels: 2, presets: Vec::new() }
    }

    fn refuse(text: &str) -> Vec<u8> {
        let mut out = tags::ERR.to_vec();
        frame::write_string(&mut out, text);
        out
    }

    fn audio(&self, samples: &[u32]) -> Vec<u8> {
        let mut out = tags::POK.to_vec();
        frame::write_u32(&mut out, (samples.len() / self.channels) as u32);
        frame::write_samples(&mut out, samples);
        out
    }

    fn chain(&mut self, b: &[u8]) -> Vec<u8> {
        let (channels, _) = got(frame::read_u32(b, 8));
        let (count, mut at) = got(frame::read_u32(b, 12));
        let mut names = Vec::new();
        let mut presets = Vec::new();
        for _ in 0..count {
            let (dll, end) = got(frame::read_string(b, at));
            let (entry, end) = got(frame::read_u32(b, end));
            let (preset, end) = got(frame::read_blob(b, end));
            at = end;
            if dll != REF_DLL {
                return Host::refuse("a chain stage failed to load");
            }
            names.push(if entry == 0 { "Reference Gain (x0.5)" } else { "Reference Gain B (x0.5)" });
            presets.push(if preset.is_empty() { vec![0; 16] } else { preset });
        }
        assert_eq!(at, b.len());
        self.gains = names.len();
        self.channels = channels.max(1) as usize;
        self.presets = presets;
        let mut out = tags::COK.to_vec();
        frame::write_u32(&mut out, names.len() as u32);
        for name in names {
            frame::write_string(&mut out, name);
        }
        out
    }

    fn load(&mut self, b: &[u8]) -> Vec<u8> {
        let (dll, at) = got(frame::read_string(b, 4));
        let (_, at) = got(frame::read_u32(b, at));
        let (channels, _) = got(frame::read_u32(b, at));
        if dll != REF_DLL {
            return Host::refuse("component failed to load");
        }
        self.gains = 1;
        self.channels = channels.max(1) as usize;
        self.presets = vec![vec![0; 16]];
        let mut out = tags::LOK.to_vec();
        frame::write_u32(&mut out, 1);
        frame::write_string(&mut out, "Reference Gain (x0.5)");
        out
    }

    /// Answers a request.
    fn serve(&mut self, b: &[u8]) -> Vec<u8> {
        match &b[..4] {
            b"CHAN" => self.chain(b),
            b"LOAD" => self.load(b),
            b"RST " => tags::OK.to_vec(),
            b"PROC" => {
                let (frames, at) = got(frame::read_u32(b, 4));
                assert_eq!(at + 4 * frames as usize * self.channels, b.len());
                let mut samples = frame::read_samples(b, at, b.len());
                for sample in &mut samples {
                    for _ in 0..self.gains {
                        *sample = (f32::from_bits(*sample) * 0.5).to_bits();
                    }
                }
                self.audio(&samples)
            }
            b"FLSH" => self.audio(&[]),
            b"GPRE" | b"CFG " => {
                let (stage, _) = got(frame::read_u32(b, 4));
                match self.presets.get(stage as usize) {
                    Some(preset) => {
                        let mut out = tags::PRE.to_vec();
                        frame::write_blob(&mut out, preset);
                        out
                    }
                    None => Host::refuse("no such stage"),
                }
            }
            b"SPRE" => {
                let (stage, at) = got(frame::read_u32(b, 4));
                let (blob, _) = got(frame::read_blob(b, at));
                self.presets[stage as usize] = blob;
                tags::OK.to_vec()
            }
            other => panic!("unknown request {other:?}"),
        }
    }
}

fn spawn() -> Worker {
    let peer = PeerInfo {
        transport_version: TRANSPORT_VERSION,
        vocab_version: VOCAB_VERSION,
        ident: "foo_dsp_host-worker 1.0".to_string(),
    };
    Worker::greet(TRANSPORT_VERSION, Ok(peer)).expect("spawn + handshake")
}

/// Hands the worker an answer in pieces of at most `piece` bytes.
fn receive(w: &mut Worker, answer: &[u8], piece: usize) -> Result<Answer, Error> {
    let mut at = 0;
    loop {
        let n = w.need().min(piece).min(answer.len() - at);
        assert!(n > 0, "the answer ended early");
        match w.feed(&answer[at..at + n]) {
            Progress::Waiting => at += n,
            Progress::Over(r) => {
                assert_eq!(at + n, answer.len(), "all of the answer was read");
                return r;
            }
        }
    }
}

fn carry(w: &mut Worker, host: &mut Host, request: Result<Vec<u8>, Error>) -> Result<Answer, Error> {
    let answer = host.serve(&request?);
    receive(w, &answer, usize::MAX)
}

fn bits(samples: &[f32]) -> Vec<u32> {
    samples.iter().map(|s| s.to_bits()).collect()
}

fn floats(samples: &[u32]) -> Vec<f32> {
    samples.iter().map(|s| f32::from_bits(*s)).collect()
}

fn process(w: &mut Worker, host: &mut Host, block: &[f32]) -> Vec<f32> {
    let request = w.process(&bits(block));
    match carry(w, host, request).expect("PROC") {
        Answer::Frames(frames) => assert_eq!(frames as usize * w.channels() as usize, w.output().len()),
        other => panic!("expected frames, got {other:?}"),
    }
    floats(w.output())
}

#[test]
fn handshake_empty_chain_session() {
    let mut w = spawn();
    let mut host = Host::new();
    assert!(w.peer().ident.starts_with("foo_dsp_host-worker"), "ident: {}", w.peer().ident);
    assert_eq!(w.peer().transport_version, TRANSPORT_VERSION);
    assert_eq!(w.peer().vocab_version, VOCAB_VERSION);

    // A bogus component path is a RECOVERABLE error — ERR comes back, the worker lives.
    let request = w.load_single(r"C:\does\not\exist\foo_dsp_nope.dll", 44100, 2, 0);
    match carry(&mut w, &mut host, request) {
        Err(Error::Remote(msg)) => assert!(!msg.is_empty()),
        other => panic!("expected Remote error for bogus component, got {other:?}"),
    }
    assert!(!w.is_gone());

    // RST acks even with nothing instantiated.
    let request = w.reset();
    assert_eq!(carry(&mut w, &mut host, request).expect("RST"), Answer::Acked);

    // No chain configured → PROC passes audio through untouched; FLSH drains nothing.
    let block: Vec<f32> = (0..4096 * 2).map(|i| ((i as f32) * 0.011).sin() * 0.3).collect();
    let out = process(&mut w, &mut host, &block);
    assert_eq!(out, block, "empty chain must be a pass-through");
    let request = w.drain();
    assert_eq!(carry(&mut w, &mut host, request).expect("FLSH"), Answer::Frames(0));
    assert!(w.output().is_empty(), "empty chain has no tail, got {} samples", w.output().len());

    // Caller-buffer variant agrees.
    let request = w.process_into(&bits(&block));
    match carry(&mut w, &mut host, request).expect("process_into") {
        Answer::Audio(frames, own) => {
            assert_eq!(frames as usize, block.len() / 2);
            assert_eq!(floats(&own), block);
        }
        other => panic!("expected audio, got {other:?}"),
    }

    assert_eq!(w.quit(), b"QUIT".to_vec());
}

#[test]
fn ref_component_chain_applies_exact_gain() {
    let mut w = spawn();
    let mut host = Host::new();
    let request = w.build_chain(44100, 2, &[StageSpec::new(REF_DLL)]);
    let names = match carry(&mut w, &mut host, request).expect("CHAN ref") {
        Answer::Names(names) => names,
        other => panic!("expected names, got {other:?}"),
    };
    assert_eq!(names.len(), 1);
    assert!(names[0].starts_with("Reference Gain"), "name: {}", names[0]);

    let block: Vec<f32> = (0..4096 * 2).map(|i| ((i as f32) * 0.007).sin() * 0.8).collect();
    let out = process(&mut w, &mut host, &block);
    let expected: Vec<f32> = block.iter().map(|&s| s * 0.5).collect();
    assert_eq!(out, expected, "x0.5 gain must be bit-exact");
    let request = w.drain();
    carry(&mut w, &mut host, request).expect("FLSH");
    assert!(w.output().is_empty(), "gain DSP has no look-ahead tail");

    let request = w.build_chain(
        44100,
        2,
        &[
            StageSpec::new(REF_DLL),
            StageSpec { entry_index: 1, ..StageSpec::new(REF_DLL) },
        ],
    );
    let mut sorted = match carry(&mut w, &mut host, request).expect("CHAN ref A+B") {
        Answer::Names(names) => names,
        other => panic!("expected names, got {other:?}"),
    };
    sorted.sort();
    assert_eq!(sorted, vec!["Reference Gain (x0.5)", "Reference Gain B (x0.5)"]);
    let request = w.reset();
    carry(&mut w, &mut host, request).expect("RST after re-CHAN");
    let out = process(&mut w, &mut host, &block);
    let expected: Vec<f32> = block.iter().map(|&s| s * 0.25).collect();
    assert_eq!(out, expected, "two distinct stages must compound to x0.25");

    // Two copies of the SAME entry also compound (after RST).
    let request = w.build_chain(44100, 2, &[StageSpec::new(REF_DLL), StageSpec::new(REF_DLL)]);
    carry(&mut w, &mut host, request).expect("CHAN ref x2");
    let request = w.reset();
    carry(&mut w, &mut host, request).expect("RST after re-CHAN x2");
    let out = process(&mut w, &mut host, &block);
    assert_eq!(out, expected, "two identical stages must also compound to x0.25");

    // The preset mechanism round-trips (the ref DSP's preset is owner-GUID + empty data).
    let request = w.get_preset(0);
    let blob = match carry(&mut w, &mut host, request).expect("GPRE") {
        Answer::Preset(blob) => blob,
        other => panic!("expected a preset, got {other:?}"),
    };
    assert_eq!(blob.len(), 16, "GUID16 + empty data");
    let request = w.set_preset(0, &blob);
    assert_eq!(carry(&mut w, &mut host, request).expect("SPRE"), Answer::Acked);
    assert_eq!(w.quit(), b"QUIT".to_vec());
}

#[test]
fn vocab_mismatch_detected_by_parent() {
    let peer = PeerInfo {
        transport_version: TRANSPORT_VERSION,
        vocab_version: 9999,
        ident: "foo_dsp_host-worker".to_string(),
    };
    match Worker::greet(TRANSPORT_VERSION, Ok(peer.clone())) {
        Err(e @ Error::Handshake { .. }) => {
            let msg = e.text();
            assert!(msg.contains("foo_dsp_host-worker"), "msg: {msg}");
            assert_eq!(
                msg,
                "version mismatch: this side speaks transport 1, vocabulary 1; foo_dsp_host-worker speaks transport 1, vocabulary 9999"
            );
        }
        Err(other) => panic!("expected Handshake error, got {other:?}"),
        Ok(_) => panic!("expected Handshake error"),
    }
    match Worker::greet(TRANSPORT_VERSION, Ok(peer)) {
        Err(Error::Handshake { transport_version, vocab_version, peer }) => {
            assert_eq!(transport_version, TRANSPORT_VERSION);
            assert_eq!(vocab_version, VOCAB_VERSION);
            assert_eq!(peer.vocab_version, 9999);
            assert!(peer.ident.contains("foo_dsp_host-worker"));
        }
        Err(other) => panic!("expected Handshake error, got {other:?}"),
        Ok(_) => panic!("expected Handshake error"),
    }
}

#[test]
fn transport_mismatch_is_refused_too() {
    let peer = PeerInfo { transport_version: 2, vocab_version: VOCAB_VERSION, ident: "w".to_string() };
    assert!(matches!(Worker::greet(1, Ok(peer)), Err(Error::Handshake { .. })));
    assert!(matches!(
        Worker::greet(1, Err(Error::Remote("no VERS".to_string()))),
        Err(Error::Remote(text)) if text == "no VERS"
    ));
}

#[test]
fn any_pieces_give_the_same_answer() {
    let answer = b"COK \x02\x00\x00\x00\x04\x00\x00\x00\xce\x94EQ\x01\x00\x00\x00V";
    for piece in 1..answer.len() + 1 {
        let mut w = spawn();
        w.build_chain(44100, 1, &[]).expect("CHAN");
        let r = receive(&mut w, answer, piece);
        assert_eq!(r, Ok(Answer::Names(vec!["ΔEQ".to_string(), "V".to_string()])));
        assert_eq!(w.channels(), 1);
        assert!(w.is_idle());
    }
}

#[test]
fn load_is_a_chain_of_one() {
    let mut host = Host::new();
    let mut a = spawn();
    let request = a.load_single(REF_DLL, 44100, 1, 0);
    assert_eq!(
        carry(&mut a, &mut host, request),
        Ok(Answer::Name("Reference Gain (x0.5)".to_string()))
    );
    let mut b = spawn();
    let request = b.build_chain(44100, 1, &[StageSpec::new(REF_DLL)]);
    assert_eq!(
        carry(&mut b, &mut host, request),
        Ok(Answer::Names(vec!["Reference Gain (x0.5)".to_string()]))
    );
    assert_eq!(a.channels(), b.channels());
}

#[test]
fn refusal_leaves_the_chain() {
    let mut host = Host::new();
    let mut w = spawn();
    let request = w.build_chain(44100, 1, &[StageSpec::new(REF_DLL)]);
    carry(&mut w, &mut host, request).expect("CHAN");
    let request = w.build_chain(44100, 6, &[StageSpec::new("nope.dll")]);
    assert_eq!(
        carry(&mut w, &mut host, request),
        Err(Error::Remote("a chain stage failed to load".to_string()))
    );
    assert_eq!(w.channels(), 1);
    assert_eq!(process(&mut w, &mut host, &[1.0]), vec![0.5]);
}

#[test]
fn zero_channels_count_as_one() {
    let mut w = spawn();
    w.build_chain(44100, 0, &[]).expect("CHAN");
    receive(&mut w, b"COK \x00\x00\x00\x00", 100).expect("COK");
    assert_eq!(w.channels(), 1);
}

#[test]
fn dead_worker_stays_dead() {
    let mut w = spawn();
    let request = w.process(&bits(&[0.5, 0.5]));
    assert!(request.is_ok());
    assert_eq!(w.need(), 4);
    assert!(matches!(w.feed(b"PO"), Progress::Waiting));
    // The pipe closes in the middle of the answer.
    assert_eq!(w.hung_up(), Error::WorkerGone);
    assert!(w.is_gone());
    assert_eq!(w.reset(), Err(Error::WorkerGone));
    assert_eq!(w.process(&[]), Err(Error::WorkerGone));
    assert_eq!(w.drain_into(), Err(Error::WorkerGone));
    assert_eq!(w.configure(0), Err(Error::WorkerGone));
    assert_eq!(w.set_preset(0, &[1]), Err(Error::WorkerGone));
    assert_eq!(w.build_chain(44100, 2, &[]), Err(Error::WorkerGone));
    assert_eq!(w.load_single("x", 44100, 2, 0), Err(Error::WorkerGone));
}

#[test]
fn unexpected_answer_fails_the_request() {
    let mut w = spawn();
    w.get_preset(3).expect("GPRE");
    assert_eq!(
        receive(&mut w, b"OK  ", 4),
        Err(Error::UnexpectedReply { expected: tags::PRE, got: tags::OK })
    );
    assert!(w.is_idle());
}

#[test]
fn dialog_gives_the_preset_back() {
    let mut host = Host::new();
    let mut w = spawn();
    let request = w.build_chain(44100, 2, &[StageSpec { preset: vec![1, 2, 3], ..StageSpec::new(REF_DLL) }]);
    carry(&mut w, &mut host, request).expect("CHAN");
    let request = w.configure(0);
    assert_eq!(carry(&mut w, &mut host, request), Ok(Answer::Preset(vec![1, 2, 3])));
    let request = w.configure(1);
    assert_eq!(carry(&mut w, &mut host, request), Err(Error::Remote("no such stage".to_string())));
}

#[test]
fn worker_starts_in_its_own_folder_by_default() {
    let exe = PathBuf::from("build/foo_dsp_host.exe");
    let exe_dir = PathBuf::from("build");
    let plan = Worker::spawn(&exe, Some(&exe_dir));
    assert_eq!(plan.program, &exe);
    assert_eq!(plan.args, vec!["--worker"]);
    assert_eq!(plan.working_dir, Some(&exe_dir));
    assert_eq!(plan.stderr, StderrMode::Inherit);

    let opts = SpawnOptions::default();
    assert!(opts.working_dir.is_none());
    assert!(!opts.capture_stderr);
    let plan = Worker::spawn_with(&exe, Some(&exe_dir), &opts);
    assert_eq!(plan.working_dir, Some(&exe_dir));
    assert_eq!(plan.stderr, StderrMode::Inherit);

    let opts = SpawnOptions { working_dir: Some(PathBuf::from("elsewhere")), capture_stderr: true };
    let plan = Worker::spawn_with(&exe, Some(&exe_dir), &opts);
    assert_eq!(plan.program, &exe);
    assert_eq!(plan.args, vec!["--worker"]);
    assert_eq!(plan.working_dir, Some(&PathBuf::from("elsewhere")));
    assert_eq!(plan.stderr, StderrMode::Capture);
}

#[test]
fn a_failed_handshake_says_why() {
    assert!(matches!(
        Worker::greet(1, Err(Error::HandshakeFailed("no answer".to_string()))),
        Err(Error::HandshakeFailed(reason)) if reason == "no answer"
    ));
}

#[test]
fn the_lab_asks_for_its_chain() {
    let mut w = spawn();
    let paths = vec!["a".to_string(), "b".to_string()];
    let presets = vec![vec![7, 8], vec![]];
    let stages = stage_specs(&paths, &presets);
    assert_eq!(stages[0], StageSpec { preset: vec![7, 8], ..StageSpec::new("a") });
    assert_eq!(stages[1], StageSpec::new("b"));
    let request = ask_for_chain(&mut w, 48000, &paths, &presets).expect("CHAN");
    assert_eq!(request, spawn().build_chain(48000, 2, &stages).expect("CHAN"));
    assert!(!w.is_idle());
    receive(&mut w, b"COK \x00\x00\x00\x00", 100).expect("COK");
    w.hung_up();
    assert_eq!(ask_for_chain(&mut w, 48000, &paths, &presets), Err(Error::WorkerGone));
}

#[test]
fn texts_of_errors() {
    assert_eq!(Error::Remote("no such stage".to_string()).text(), "worker error: no such stage");
    assert_eq!(
        Error::UnexpectedReply { expected: tags::COK, got: [0x41, 0x7F, 0, 0xC3] }.text(),
        "expected reply 'COK ', got 'A???'"
    );
    assert_eq!(Error::InvalidUtf8.text(), "the worker sent text that is not UTF-8");
    assert_eq!(Error::TooLong.text(), "a field of the request is too long");
    assert_eq!(Error::HandshakeFailed("x".to_string()).text(), "handshake failed: x");
    assert_eq!(Error::WorkerGone.text(), "the worker is gone");
}
