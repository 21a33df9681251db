use foobar_dsp_host::args::{default_source, parse_args, Options};
use foobar_dsp_host::choice;
use foobar_dsp_host::decode::{Decoded, Packet, StereoTrack};
use foobar_dsp_host::engine::{Action, Engine, EngineMsg, Probe, Publish};
use foobar_dsp_host::output::Output;
use foobar_dsp_host::playback::{speaker, Cursor, Heard, Meters, Speaker};
use foobar_dsp_host::rack::{monitor_bypass, Rack};
use foobar_dsp_host::resample::{needs_resampling, neighbours};
use foobar_dsp_host::selftest::{exit_status, Selftest, TestEvent, TestPhase, Ending};
use foobar_dsp_host::shot::{Shot, ShotAction};
use foobar_dsp_host::status::Status;
use foobar_dsp_host::streaming::{preprocess, Run, Step};
use foobar_dsp_host::PeArch;

fn names(list: &[&str]) -> Vec<String> {
    list.iter().map(|s| s.to_string()).collect()
}

fn probe(arch: PeArch, file: &str) -> Probe {
    Probe { arch, file: file.to_string() }
}

/// An engine that hosts a chain of these components.
fn hosting(chain: Vec<usize>) -> Engine<usize> {
    let mut engine = Engine::new();
    let n = chain.len();
    engine.on_message(EngineMsg::SetChain(chain));
    let probes: Vec<Probe> = (0..n).map(|_| probe(PeArch::X64, "foo.dll")).collect();
    engine.on_probed(&probes);
    engine.on_worker_found(true);
    engine.on_spawned(Ok(()));
    engine.on_built(Ok(vec!["DSP".to_string(); n]));
    engine.on_processed(Ok("+0.00".to_string()));
    engine
}

#[test]
fn a_chain_gets_applied() {
    let mut engine: Engine<usize> = Engine::new();
    let turn = engine.on_message(EngineMsg::SetChain(vec![4, 2]));
    assert!(turn.clear_output && !turn.quit_worker);
    assert_eq!(turn.next, Action::Probe);
    assert_eq!(engine.pending(), Some(&vec![4, 2]));
    let turn = engine.on_probed(&[probe(PeArch::X86, "a"), probe(PeArch::X86, "b")]);
    assert_eq!(turn.next, Action::FindWorker { x86: true });
    let turn = engine.on_worker_found(true);
    assert_eq!(turn.next, Action::Spawn { x86: true });
    assert_eq!(turn.status.unwrap().text(), "building chain of 2 (x86) …");
    assert_eq!(engine.on_spawned(Ok(())).next, Action::Build);
    let turn = engine.on_built(Ok(names(&["EQ", "VLevel"])));
    assert_eq!(turn.next, Action::Process);
    let turn = engine.on_processed(Ok("-1.50".to_string()));
    assert_eq!(turn.publish, Publish::First);
    assert_eq!(turn.names, Some(names(&["EQ", "VLevel"])));
    assert_eq!(turn.status.unwrap().text(), "chain ready: EQ · VLevel  (-1.50 dB vs raw)");
    assert_eq!(turn.next, Action::Receive);
    assert_eq!(engine.pending(), None);
}

#[test]
fn a_new_chain_ends_the_old_one() {
    let mut engine = hosting(vec![1]);
    let turn = engine.on_message(EngineMsg::SetChain(vec![]));
    assert!(turn.quit_worker && turn.clear_output);
    assert_eq!(turn.status, Some(Status::EmptyChain));
    assert_eq!(turn.next, Action::Receive);
    let turn = engine.on_message(EngineMsg::ConfigStage(0));
    assert_eq!(turn.status, Some(Status::NoChain));
}

#[test]
fn a_mixed_chain_is_refused() {
    let mut engine: Engine<usize> = Engine::new();
    engine.on_message(EngineMsg::SetChain(vec![0, 1, 2]));
    let turn = engine.on_probed(&[
        probe(PeArch::X64, "foo_a.dll"),
        probe(PeArch::X64, "foo_b.dll"),
        probe(PeArch::X86, "foo_c.dll"),
    ]);
    assert_eq!(turn.next, Action::Receive);
    let text = turn.status.unwrap().text();
    assert!(text.starts_with("chain mixes x86 + x64 (foo_c.dll differs) — "), "{text}");
}

#[test]
fn unknown_components_go_to_the_x64_worker() {
    let mut engine: Engine<usize> = Engine::new();
    engine.on_message(EngineMsg::SetChain(vec![0]));
    let turn = engine.on_probed(&[probe(PeArch::Unknown, "foo.dll")]);
    assert_eq!(turn.next, Action::FindWorker { x86: false });
    let turn = engine.on_worker_found(false);
    assert_eq!(turn.status.unwrap().text(), "the x64 worker isn't built — build.ps1 builds both");
    assert_eq!(turn.next, Action::Receive);
}

#[test]
fn every_failure_leaves_no_worker() {
    let mut engine: Engine<usize> = Engine::new();
    engine.on_message(EngineMsg::SetChain(vec![0]));
    engine.on_probed(&[probe(PeArch::X64, "a")]);
    engine.on_worker_found(true);
    let turn = engine.on_spawned(Err("no".to_string()));
    assert!(!turn.quit_worker);
    assert_eq!(turn.status.unwrap().text(), "worker spawn failed: no");

    engine.on_message(EngineMsg::SetChain(vec![0]));
    engine.on_probed(&[probe(PeArch::X64, "a")]);
    engine.on_worker_found(true);
    engine.on_spawned(Ok(()));
    let turn = engine.on_built(Err("bad dll".to_string()));
    assert!(turn.quit_worker);
    assert_eq!(turn.status.unwrap().text(), "chain build failed: bad dll");

    engine.on_message(EngineMsg::SetChain(vec![0]));
    engine.on_probed(&[probe(PeArch::X64, "a")]);
    engine.on_worker_found(true);
    engine.on_spawned(Ok(()));
    engine.on_built(Ok(names(&["EQ"])));
    let turn = engine.on_processed(Err("crash".to_string()));
    assert!(turn.quit_worker);
    assert_eq!(turn.publish, Publish::Nothing);
    assert_eq!(turn.status.unwrap().text(), "process failed: crash");

    let turn = engine.on_message(EngineMsg::Quit);
    assert!(!turn.quit_worker);
    assert_eq!(turn.next, Action::Stop);
}

#[test]
fn a_dialog_and_what_follows() {
    let mut engine = hosting(vec![7, 8]);
    let turn = engine.on_message(EngineMsg::ConfigStage(2));
    assert_eq!(turn.status.unwrap().text(), "stage no longer in the chain — Apply first");
    assert_eq!(turn.next, Action::Receive);
    let turn = engine.on_message(EngineMsg::ConfigStage(1));
    assert_eq!(turn.status.unwrap().text(), "opening stage 2’s config dialog — adjust + OK …");
    assert_eq!(turn.next, Action::Configure { stage: 1 });
    let turn = engine.on_configured(Ok(vec![1, 2, 3]));
    assert_eq!(turn.save_preset, Some((1, vec![1, 2, 3])));
    assert_eq!(turn.next, Action::Process);
    let turn = engine.on_processed(Ok("+2.00".to_string()));
    assert_eq!(turn.publish, Publish::Again);
    assert_eq!(turn.status.unwrap().text(), "stage 2 reconfigured — chain now +2.00 dB vs raw");

    engine.on_message(EngineMsg::ConfigStage(0));
    let turn = engine.on_configured(Err("worker is gone".to_string()));
    assert_eq!(turn.status.unwrap().text(), "config failed: worker is gone");

    engine.on_message(EngineMsg::ConfigStage(0));
    engine.on_configured(Ok(vec![]));
    let turn = engine.on_processed(Err("x".to_string()));
    assert!(!turn.quit_worker);
    assert_eq!(turn.status.unwrap().text(), "reprocess failed: x");
    assert!(engine.on_message(EngineMsg::Quit).quit_worker);
}

#[test]
fn texts_of_the_other_statuses() {
    assert_eq!(Status::EmptyChain.text(), "empty chain — add a DSP to start");
    assert_eq!(Status::NoChain.text(), "apply a chain first");
}

#[test]
fn a_dialog_never_outlives_its_chain() {
    let mut rack = Rack::new();
    rack.add_stage(0, "X".to_string());
    rack.add_stage(1, "Y".to_string());
    assert!(rack.is_dirty());
    assert_eq!(rack.configure(1, true), None);
    assert_eq!(rack.apply(), (vec![0, 1], false));
    assert!(!rack.is_dirty());
    assert_eq!(rack.configure(1, false), None);
    assert_eq!(rack.configure(1, true), Some(1));
    rack.add_stage(2, "Z".to_string());
    assert!(!rack.remove_stage(0));
    assert!(rack.remove_stage(0));
    assert_eq!(rack.apply(), (vec![2], false));
}

#[test]
fn applying_dismisses_an_open_dialog() {
    let mut rack = Rack::new();
    rack.add_stage(5, "A".to_string());
    rack.apply();
    assert_eq!(rack.configure(0, true), Some(0));
    assert_eq!(rack.apply(), (vec![5], true));
    // Its end is reported late, and is not taken for the end of another.
    assert_eq!(rack.configure(0, true), Some(0));
    rack.dialog_ended();
    assert_eq!(rack.apply(), (vec![5], true));
}

#[test]
fn a_dialog_that_ended_is_not_in_the_way() {
    let mut rack = Rack::new();
    rack.add_stage(5, "A".to_string());
    rack.apply();
    rack.configure(0, true);
    rack.dialog_ended();
    rack.dialog_ended();
    assert!(!rack.remove_stage(0));
    assert!(!rack.can_apply());
}

#[test]
fn moving_stages() {
    let mut rack = Rack::new();
    for i in 0..3 {
        rack.add_stage(i, format!("S{i}"));
    }
    rack.apply();
    rack.configure(2, true);
    rack.move_up(2);
    assert_eq!(rack.label(1, true, &names(&["real"])), "S2");
    rack.move_up(1);
    rack.move_up(0);
    rack.move_down(2);
    // The dialog is still that of the stage which is first now.
    assert!(!rack.remove_stage(1));
    assert!(rack.remove_stage(0));
    assert_eq!(rack.apply(), (vec![1], false));
}

#[test]
fn up_then_down_is_nothing() {
    let mut rack = Rack::new();
    for i in 0..3 {
        rack.add_stage(i, String::new());
    }
    rack.move_up(2);
    rack.move_down(1);
    assert_eq!(rack.apply().0, vec![0, 1, 2]);
    rack.add_stage(9, String::new());
    rack.remove_stage(3);
    assert_eq!(rack.apply().0, vec![0, 1, 2]);
}

#[test]
fn labels_of_the_rack() {
    let mut rack = Rack::new();
    rack.add_stage(0, "foo_a.dll".to_string());
    rack.add_stage(1, "foo_b.dll".to_string());
    let live = names(&["EQ"]);
    assert_eq!(rack.label(0, true, &live), "foo_a.dll");
    rack.apply();
    assert_eq!(rack.label(0, true, &live), "EQ");
    assert_eq!(rack.label(0, false, &live), "foo_a.dll");
    assert_eq!(rack.label(1, true, &live), "foo_b.dll");
}

#[test]
fn source_is_heard_until_ready() {
    assert!(monitor_bypass(false, false));
    assert!(monitor_bypass(false, true));
    assert!(monitor_bypass(true, true));
    assert!(!monitor_bypass(true, false));
}

#[test]
fn picture_of_a_ready_chain() {
    let mut shot = Shot::new();
    for _ in 0..24 {
        assert_eq!(shot.frame(true, false), (true, ShotAction::Wait));
    }
    assert_eq!(shot.frame(true, false), (true, ShotAction::Request));
    assert_eq!(shot.frame(true, false), (false, ShotAction::Wait));
    assert_eq!(shot.frame(true, true), (false, ShotAction::Save));
    assert_eq!(shot.frame(true, true), (false, ShotAction::Wait));
}

#[test]
fn picture_that_never_comes() {
    let mut shot = Shot::new();
    let mut requested = 0;
    for frame in 1..2000 {
        match shot.frame(false, false).1 {
            ShotAction::Request => requested = frame,
            ShotAction::GiveUp => {
                assert_eq!(requested, 1201);
                assert_eq!(frame, 1801);
                return;
            }
            ShotAction::Wait => {}
            ShotAction::Save => panic!("no picture came"),
        }
    }
    panic!("not given up");
}

#[test]
fn command_line() {
    assert_eq!(
        parse_args(&names(&["lab"])),
        Options { probe: false, selftest: false, src: None, shot: None }
    );
    assert_eq!(
        parse_args(&names(&["lab", "--wav", "a.wav", "--shot", "b.png", "--probe", "--src", "c.mp3"])),
        Options {
            probe: true,
            selftest: false,
            src: Some("c.mp3".to_string()),
            shot: Some("b.png".to_string()),
        }
    );
    // A flag takes what follows it, whatever that is; one at the end takes nothing.
    assert_eq!(
        parse_args(&names(&["--src", "--src", "--shot", "--selftest", "--shot"])),
        Options { probe: false, selftest: true, src: Some("--shot".to_string()), shot: None }
    );
    assert_eq!(
        parse_args(&[]),
        Options { probe: false, selftest: false, src: None, shot: None }
    );
}

#[test]
fn default_sources_in_order() {
    let all: Vec<&str> = (0..9).filter_map(default_source).collect();
    assert_eq!(all, vec!["test.mp3", "test.flac", "test.wav", "test.ogg", "sample/demo.wav"]);
}

#[test]
fn known_components_are_chosen() {
    let list = names(&["foo_a.dll", "foo_Loudness.dll", "foo_VLEVEL.dll", "foo_dsp_DeltA.dll", "foo_delta2.dll"]);
    assert_eq!(choice::default_chain(&list), vec![3, 2, 1]);
    assert_eq!(choice::selftest_chain(&list, &[true, true, true, false, true]), vec![4, 2, 1]);
    // One known 64-bit component is too few.
    assert_eq!(choice::selftest_chain(&list, &[true, true, false, false, false]), vec![0, 1]);
    assert!(choice::selftest_chain(&list, &[false; 5]).is_empty());
}

#[test]
fn the_first_three_are_chosen_otherwise() {
    assert_eq!(choice::default_chain(&names(&["a", "b", "c", "d"])), vec![0, 1, 2]);
    assert_eq!(choice::default_chain(&names(&["a"])), vec![0]);
    assert_eq!(choice::default_chain(&names(&["a", "b", "xvlevelx", "d"])), vec![2]);
    assert!(choice::default_chain(&[]).is_empty());
}

#[test]
fn choosing_among_lowered_names() {
    assert_eq!(choice::choose_lowered(&names(&["delta vlevel", "Delta"]), &[true, true], 1), vec![0, 0]);
    assert_eq!(choice::choose_lowered(&names(&["Delta"]), &[true], 1), vec![0]);
    assert_eq!(choice::choose_lowered(&names(&["x", "Delta"]), &[false, true], 1), vec![1]);
}

#[test]
fn selftest_of_three_stages() {
    let mut test = Selftest::start(3, true);
    assert!(!test.on_event(TestEvent::Spawned(true)));
    for k in 1..4 {
        assert_eq!(test.phase, TestPhase::Building(k));
        assert!(!test.on_event(TestEvent::Built(true)));
        assert_eq!(test.phase, TestPhase::Processing(k));
        assert_eq!(test.on_event(TestEvent::Processed(true)), k == 3);
    }
    assert!(!test.on_event(TestEvent::Judged { samples: 2, differs: true }));
    assert_eq!(test.phase, TestPhase::Ended(Ending::Pass));
    assert_eq!(exit_status(Ending::Pass), 0);
}

#[test]
fn selftest_failures() {
    assert_eq!(Selftest::start(0, true).phase, TestPhase::Ended(Ending::NoComponents));
    assert_eq!(Selftest::start(2, false).phase, TestPhase::Ended(Ending::NoWorker));
    let mut test = Selftest::start(1, true);
    assert!(!test.on_event(TestEvent::Spawned(false)));
    assert_eq!(test.phase, TestPhase::Ended(Ending::SpawnFailed));
    let mut test = Selftest::start(1, true);
    test.on_event(TestEvent::Spawned(true));
    assert!(test.on_event(TestEvent::Built(false)));
    assert_eq!(test.phase, TestPhase::Ended(Ending::ChainFailed));
    let mut test = Selftest::start(1, true);
    test.on_event(TestEvent::Spawned(true));
    test.on_event(TestEvent::Built(true));
    assert!(test.on_event(TestEvent::Processed(false)));
    assert_eq!(test.phase, TestPhase::Ended(Ending::ProcessFailed));
    let mut test = Selftest::start(1, true);
    test.on_event(TestEvent::Spawned(true));
    test.on_event(TestEvent::Built(true));
    assert!(test.on_event(TestEvent::Processed(true)));
    test.on_event(TestEvent::Judged { samples: 1, differs: true });
    assert_eq!(test.phase, TestPhase::Ended(Ending::Unchanged));
    assert_eq!(exit_status(Ending::Unchanged), 1);
}

#[test]
fn a_track_in_blocks() {
    assert_eq!(preprocess(0), vec![Step::Reset, Step::Drain]);
    assert_eq!(preprocess(1), vec![Step::Reset, Step::Drain]);
    assert_eq!(
        preprocess(16384 + 7),
        vec![
            Step::Reset,
            Step::Process { from: 0, to: 16384 },
            Step::Process { from: 16384, to: 16390 },
            Step::Drain,
        ]
    );
}

#[test]
fn a_run_joins_all_that_comes_back() {
    let mut run: Run<String> = Run::new(16384 + 7);
    assert_eq!(run.next(), Some(Step::Reset));
    assert_eq!(run.on_done(Ok(vec![])), Some(Step::Process { from: 0, to: 16384 }));
    assert_eq!(run.on_done(Ok(vec![1, 2])), Some(Step::Process { from: 16384, to: 16390 }));
    assert_eq!(run.on_done(Ok(vec![])), Some(Step::Drain));
    assert_eq!(run.on_done(Ok(vec![3, 4, 5, 6])), None);
    assert_eq!(run.finish(), Ok(vec![1, 2, 3, 4, 5, 6]));
}

#[test]
fn the_first_failure_ends_a_run() {
    for fails_at in 0..3 {
        let mut run: Run<String> = Run::new(4);
        let mut next = run.next();
        let mut done = 0;
        while next.is_some() {
            let audio = if next == Some(Step::Reset) { vec![] } else { vec![9] };
            next = run.on_done(if done == fails_at { Err(format!("step {done}")) } else { Ok(audio) });
            done += 1;
        }
        assert_eq!(done, fails_at + 1);
        assert_eq!(run.next(), None);
        assert_eq!(run.finish(), Err(format!("step {fails_at}")));
    }
}

#[test]
fn playing_goes_round() {
    assert_eq!(Cursor::new(3, 1), None);
    let mut cursor = Cursor::new(5, 4).unwrap();
    assert_eq!((cursor.left(), cursor.right()), (0, 1));
    cursor.advance();
    assert_eq!((cursor.left(), cursor.right()), (2, 3));
    assert_eq!(cursor.metered(3), Some((2, 0)));
    assert_eq!(cursor.metered(1), None);
    cursor.advance();
    assert_eq!(cursor.left(), 0);
    // Half a frame at the end is played on both sides.
    let cursor = Cursor::new(2, 3).unwrap();
    assert_eq!((cursor.left(), cursor.right()), (2, 2));
}

const SHOWN: Meters = Meters { input: 1, output: 2 };
const MEASURED: Meters = Meters { input: 3, output: 4 };

#[test]
fn a_paused_player_is_silent_and_stays() {
    let mut heard = Heard::new(false, true, 7, 10, 10);
    assert_eq!(heard, Heard::Paused);
    assert_eq!(heard.sample(0), None);
    assert_eq!(heard.metered(10), None);
    heard.advance();
    assert_eq!(heard.position(7), 7);
    assert_eq!(heard.meters(SHOWN, MEASURED), SHOWN);
}

#[test]
fn a_buffer_without_a_frame_is_silent() {
    let heard = Heard::new(true, false, 7, 10, 1);
    assert_eq!(heard, Heard::TooShort);
    assert_eq!(heard.sample(1), None);
    assert_eq!(heard.position(7), 7);
    assert_eq!(heard.meters(SHOWN, MEASURED), Meters { input: 0, output: 0 });
    assert_eq!(f32::from_bits(0), 0.0);
    assert_eq!(Heard::new(true, true, 7, 1, 10), Heard::TooShort);
}

#[test]
fn bypass_picks_the_source() {
    let mut heard = Heard::new(true, true, 5, 6, 100);
    assert!(matches!(heard, Heard::Play { raw: true, .. }));
    assert_eq!((heard.sample(0), heard.sample(1), heard.sample(2)), (Some(4), Some(5), None));
    assert_eq!(heard.metered(6), Some((4, 5)));
    heard.advance();
    assert_eq!(heard.position(5), 0);
    assert_eq!(heard.meters(SHOWN, MEASURED), MEASURED);
    let heard = Heard::new(true, false, 5, 6, 100);
    assert!(matches!(heard, Heard::Play { raw: false, .. }));
}

#[test]
fn what_is_heard_follows_the_engine() {
    let mut output = Output::new();
    assert_eq!(output, Output { ready: false, bypass: true, names: vec![] });
    let mut engine: Engine<usize> = Engine::new();
    output.take(&engine.on_message(EngineMsg::SetChain(vec![0])));
    output.take(&engine.on_probed(&[probe(PeArch::X64, "a")]));
    output.take(&engine.on_worker_found(true));
    output.take(&engine.on_spawned(Ok(())));
    output.take(&engine.on_built(Ok(names(&["EQ"]))));
    assert_eq!(output, Output::new());
    output.take(&engine.on_processed(Ok("+0.00".to_string())));
    assert_eq!(output, Output { ready: true, bypass: false, names: names(&["EQ"]) });
    output.bypass = true;
    output.take(&engine.on_message(EngineMsg::ConfigStage(0)));
    output.take(&engine.on_configured(Ok(vec![])));
    assert!(output.bypass);
    output.take(&engine.on_processed(Ok("+0.00".to_string())));
    assert_eq!(output, Output { ready: true, bypass: false, names: names(&["EQ"]) });
    output.take(&engine.on_message(EngineMsg::SetChain(vec![0])));
    assert_eq!(output, Output::new());
}

#[test]
fn device_channels() {
    assert_eq!(speaker(0), Speaker::Left);
    assert_eq!(speaker(1), Speaker::Right);
    assert_eq!(speaker(2), Speaker::Silent);
}

#[test]
fn decoding_to_stereo() {
    let mut track = StereoTrack::new(7, Some(1));
    let packet = |track: u32, channels: usize, samples: &[u32]| Packet {
        track,
        decoded: Some(Decoded { channels, samples: samples.to_vec() }),
    };
    assert!(track.take(&packet(7, 1, &[1, 2])));
    assert!(track.take(&packet(8, 1, &[9, 9])));
    assert!(track.take(&Packet { track: 7, decoded: None }));
    assert!(track.take(&packet(7, 2, &[3, 4])));
    assert!(track.take(&packet(7, 3, &[5, 6, 9, 7, 8])));
    assert!(track.take(&packet(7, 0, &[10])));
    // 90 seconds at 1 Hz are 180 samples.
    let rest: Vec<u32> = vec![0; 168];
    assert!(!track.take(&packet(7, 2, &rest)));
    let (samples, rate) = track.finish().unwrap();
    assert_eq!(&samples[..12], &[1, 1, 2, 2, 3, 4, 5, 6, 7, 8, 10, 10]);
    assert_eq!(samples.len(), 180);
    assert_eq!(rate, 1);
}

#[test]
fn nothing_decoded() {
    let track = StereoTrack::new(0, None);
    assert!(track.finish().is_none());
    let mut track = StereoTrack::new(0, None);
    track.take(&Packet { track: 0, decoded: Some(Decoded { channels: 1, samples: vec![3] }) });
    assert_eq!(track.finish(), Some((vec![3, 3], 44100)));
}

#[test]
fn frames_to_resample_between() {
    assert!(needs_resampling(2, 44100, 48000));
    assert!(!needs_resampling(1, 44100, 48000));
    assert!(!needs_resampling(100, 44100, 44100));
    assert_eq!(neighbours(0, 1), (0, 0));
    assert_eq!(neighbours(0, 3), (0, 1));
    assert_eq!(neighbours(2, 3), (2, 2));
    assert_eq!(neighbours(9, 3), (2, 2));
}
