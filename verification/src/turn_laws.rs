//! What the engine does, turn by turn.
use vstd::prelude::*;
use crate::chain::stage_specs;
use crate::engine::{
    Action, Engine, EngineMsg, EngineView, Held, PhaseView, Probe, Publish, Turn, TurnView,
};
use crate::output::Output;
use crate::pe::PeArch;
use crate::protocol::StageSpec;
use crate::selftest::{exit_status, Ending, Selftest, TestEvent, TestPhase};
use crate::shot::{Shot, ShotAction, ShotPhase};
use crate::status::StatusView;

verus! {

/// A turn that at most tells something and goes on.
pub open spec fn only_tells(turn: TurnView, status: Option<StatusView>, next: Action) -> bool {
    &&& !turn.quit_worker
    &&& !turn.clear_output
    &&& turn.save_preset is None
    &&& turn.publish == Publish::Nothing
    &&& turn.names is None
    &&& turn.status == status
    &&& turn.next == next
}

/// A turn that shuts the worker down, tells why, and waits for a message.
pub open spec fn gives_up(turn: TurnView, status: StatusView) -> bool {
    &&& turn.quit_worker
    &&& !turn.clear_output
    &&& turn.save_preset is None
    &&& turn.publish == Publish::Nothing
    &&& turn.names is None
    &&& turn.status == Some(status)
    &&& turn.next == Action::Receive
}

/// No chain, no worker, and a message is waited for.
pub open spec fn rests<P>(e: EngineView<P>) -> bool {
    e.held == Held::Absent && e.chain.len() == 0 && e.phase is Idle
}

/// An engine starts at rest.
pub proof fn law_new_engine<P>(e: Engine<P>)
    requires
        call_ensures(Engine::<P>::new, (), e),
    ensures
        rests(e@),
{
}

/// A new chain ends the old one at once: a worker that hosts it is shut down, and nothing of it is
/// heard or named any more. Then the components are probed; an empty chain is told and left at that.
pub proof fn law_chain_is_set<P>(e: &mut Engine<P>, dlls: Vec<P>, turn: Turn)
    requires
        call_ensures(Engine::<P>::on_message, (e, EngineMsg::SetChain(dlls)), turn),
    ensures
        turn@.quit_worker <==> old(e)@.held == Held::Live,
        turn@.clear_output,
        turn@.save_preset is None && turn@.publish == Publish::Nothing && turn@.names is None,
        final(e)@.held == Held::Absent && final(e)@.chain.len() == 0,
        dlls@.len() == 0 ==> final(e)@.phase is Idle && turn@.status == Some(
            StatusView::EmptyChain,
        ) && turn@.next == Action::Receive,
        dlls@.len() > 0 ==> final(e)@.phase == PhaseView::Probing(dlls@) && turn@.status is None
            && turn@.next == Action::Probe,
{
}

/// The dialog that opens is that of the stage that was asked for: the action, the status and the
/// preset that is kept afterwards all bear its number.
pub proof fn law_dialog_opens<P>(e: &mut Engine<P>, stage: usize, turn: Turn)
    requires
        call_ensures(Engine::<P>::on_message, (e, EngineMsg::ConfigStage(stage)), turn),
        old(e)@.held == Held::Live,
        stage < old(e)@.chain.len(),
        stage < 0x1_0000_0000,
    ensures
        only_tells(
            turn@,
            Some(StatusView::OpeningConfig(stage as nat)),
            Action::Configure { stage: stage as u32 },
        ),
        final(e)@.phase == PhaseView::<P>::Configuring(stage as nat),
        final(e)@.held == old(e)@.held && final(e)@.chain == old(e)@.chain,
{
}

/// Without a hosted chain, or beyond its stages, no dialog opens and nothing changes.
pub proof fn law_no_dialog_opens<P>(e: &mut Engine<P>, stage: usize, turn: Turn)
    requires
        call_ensures(Engine::<P>::on_message, (e, EngineMsg::ConfigStage(stage)), turn),
        old(e)@.held != Held::Live || stage >= old(e)@.chain.len(),
    ensures
        final(e)@ == old(e)@,
        old(e)@.held != Held::Live ==> only_tells(
            turn@,
            Some(StatusView::NoChain),
            Action::Receive,
        ),
        old(e)@.held == Held::Live ==> only_tells(
            turn@,
            Some(StatusView::StageGone),
            Action::Receive,
        ),
{
}

/// Quitting shuts down the worker that hosts a chain, and stops.
pub proof fn law_engine_quits<P>(e: &mut Engine<P>, turn: Turn)
    requires
        call_ensures(Engine::<P>::on_message, (e, EngineMsg::Quit), turn),
    ensures
        turn@.quit_worker <==> old(e)@.held == Held::Live,
        turn@.next == Action::Stop,
        !turn@.clear_output && turn@.save_preset is None && turn@.publish == Publish::Nothing
            && turn@.names is None && turn@.status is None,
        final(e)@.held == Held::Absent && final(e)@.phase is Stopped,
{
}

/// Components of one architecture go to its worker, the 32-bit one for x86 and the 64-bit one for
/// all others.
pub proof fn law_components_are_routed<P>(e: &mut Engine<P>, probes: &[Probe], turn: Turn)
    requires
        call_ensures(Engine::<P>::on_probed, (e, probes), turn),
        old(e)@.phase is Probing,
        forall|k: int| 0 <= k < probes@.len() ==> (#[trigger] probes@[k]).arch == probes@[0].arch,
    ensures
        ({
            let x86 = probes@[0].arch == PeArch::X86;
            &&& only_tells(turn@, None, Action::FindWorker { x86 })
            &&& final(e)@.phase == (PhaseView::Finding { dlls: old(e)@.phase->Probing_0, x86 })
            &&& final(e)@.held == old(e)@.held && final(e)@.chain == old(e)@.chain
        }),
{
}

/// Components of more than one architecture are refused, naming the first whose architecture is not
/// that of the first of all.
pub proof fn law_components_do_not_mix<P>(e: &mut Engine<P>, probes: &[Probe], turn: Turn, other: int)
    requires
        call_ensures(Engine::<P>::on_probed, (e, probes), turn),
        0 <= other < probes@.len(),
        probes@[other].arch != probes@[0].arch,
        forall|k: int| 0 <= k < other ==> (#[trigger] probes@[k]).arch == probes@[0].arch,
    ensures
        rests(final(e)@),
        only_tells(turn@, Some(StatusView::MixedArch(probes@[other].file@)), Action::Receive),
{
    lemma_first_other(probes@, 0, other);
}

proof fn lemma_first_other(probes: Seq<Probe>, i: int, other: int)
    requires
        0 <= i <= other < probes.len(),
        probes[other].arch != probes[0].arch,
        forall|k: int| 0 <= k < other ==> (#[trigger] probes[k]).arch == probes[0].arch,
    ensures
        crate::engine::first_other(probes, probes[0].arch, i) == other,
    decreases other - i,
{
    if i < other {
        lemma_first_other(probes, i + 1, other);
    }
}

/// A worker that is there is started for the chain, and one that is not is told.
pub proof fn law_worker_is_found<P>(e: &mut Engine<P>, found: bool, turn: Turn)
    requires
        call_ensures(Engine::<P>::on_worker_found, (e, found), turn),
        old(e)@.phase is Finding,
    ensures
        ({
            let dlls = old(e)@.phase->Finding_dlls;
            let x86 = old(e)@.phase->x86;
            &&& found ==> only_tells(
                turn@,
                Some(StatusView::Building { stages: dlls.len(), x86 }),
                Action::Spawn { x86 },
            ) && final(e)@.phase == (PhaseView::Spawning { dlls }) && final(e)@.held == old(e)@.held
                && final(e)@.chain == old(e)@.chain
            &&& !found ==> only_tells(
                turn@,
                Some(StatusView::WorkerMissing { x86 }),
                Action::Receive,
            ) && rests(final(e)@)
        }),
{
}

/// A worker that started is held, and builds the chain; one that did not is told.
pub proof fn law_worker_starts<P>(e: &mut Engine<P>, result: Result<(), String>, turn: Turn)
    requires
        call_ensures(Engine::<P>::on_spawned, (e, result), turn),
        old(e)@.phase is Spawning,
    ensures
        result is Ok ==> only_tells(turn@, None, Action::Build) && final(e)@.phase == (
        PhaseView::Building { dlls: old(e)@.phase->Spawning_dlls }) && final(e)@.held == Held::Fresh
            && final(e)@.chain == old(e)@.chain,
        result matches Err(why) ==> only_tells(
            turn@,
            Some(StatusView::SpawnFailed(why@)),
            Action::Receive,
        ) && rests(final(e)@),
{
}

/// A chain that was built processes the track; one that was not is given up with its worker.
pub proof fn law_chain_is_built<P>(e: &mut Engine<P>, result: Result<Vec<String>, String>, turn: Turn)
    requires
        call_ensures(Engine::<P>::on_built, (e, result), turn),
        old(e)@.phase is Building,
    ensures
        result matches Ok(names) ==> {
            &&& only_tells(turn@, None, Action::Process)
            &&& final(e)@.phase matches PhaseView::Filling { dlls, names: n } && dlls == old(
                e,
            )@.phase->Building_dlls && n.len() == names@.len() && forall|k: int|
                0 <= k < n.len() ==> #[trigger] n[k] == names@[k]@
            &&& final(e)@.held == old(e)@.held && final(e)@.chain == old(e)@.chain
        },
        result matches Err(why) ==> gives_up(turn@, StatusView::BuildFailed(why@)) && rests(final(e)@),
{
}

/// A new chain that processed the track is applied: its components are the chain, its worker hosts
/// it, it is heard and its stages have their names. One that did not is given up with its worker.
pub proof fn law_track_is_processed<P>(e: &mut Engine<P>, result: Result<String, String>, turn: Turn)
    requires
        call_ensures(Engine::<P>::on_processed, (e, result), turn),
        old(e)@.phase is Filling,
    ensures
        result matches Ok(delta) ==> {
            let names = old(e)@.phase->Filling_names;
            &&& !turn@.quit_worker && !turn@.clear_output && turn@.save_preset is None
            &&& turn@.publish == Publish::First
            &&& turn@.names == Some(names)
            &&& turn@.status == Some(StatusView::Ready { names, delta: delta@ })
            &&& turn@.next == Action::Receive
            &&& final(e)@.held == Held::Live
            &&& final(e)@.chain == old(e)@.phase->Filling_dlls
            &&& final(e)@.phase is Idle
        },
        result matches Err(why) ==> gives_up(turn@, StatusView::ProcessFailed(why@)) && rests(
            final(e)@,
        ),
{
}

/// A dialog that was closed keeps its preset for its own stage and has the track processed again;
/// one that failed is told. The chain stays.
pub proof fn law_dialog_closes<P>(e: &mut Engine<P>, result: Result<Vec<u8>, String>, turn: Turn)
    requires
        call_ensures(Engine::<P>::on_configured, (e, result), turn),
        old(e)@.phase is Configuring,
    ensures
        final(e)@.held == old(e)@.held && final(e)@.chain == old(e)@.chain,
        result matches Ok(blob) ==> {
            let stage = old(e)@.phase->Configuring_0;
            &&& turn@.save_preset == Some((stage, blob@))
            &&& !turn@.quit_worker && !turn@.clear_output && turn@.publish == Publish::Nothing
            &&& turn@.names is None && turn@.status is None
            &&& turn@.next == Action::Process
            &&& final(e)@.phase == PhaseView::<P>::Refilling(stage)
        },
        result matches Err(why) ==> only_tells(
            turn@,
            Some(StatusView::ConfigFailed(why@)),
            Action::Receive,
        ) && final(e)@.phase is Idle,
{
}

/// What was processed again after a dialog is heard, and told with the stage's number; a failure is
/// told. The chain stays either way.
pub proof fn law_track_is_processed_again<P>(
    e: &mut Engine<P>,
    result: Result<String, String>,
    turn: Turn,
)
    requires
        call_ensures(Engine::<P>::on_processed, (e, result), turn),
        old(e)@.phase is Refilling,
    ensures
        final(e)@.held == old(e)@.held && final(e)@.chain == old(e)@.chain && final(e)@.phase is Idle,
        result matches Ok(delta) ==> {
            &&& !turn@.quit_worker && !turn@.clear_output && turn@.save_preset is None
            &&& turn@.publish == Publish::Again
            &&& turn@.names is None
            &&& turn@.status == Some(
                StatusView::Reconfigured { stage: old(e)@.phase->Refilling_0, delta: delta@ },
            )
            &&& turn@.next == Action::Receive
        },
        result matches Err(why) ==> only_tells(
            turn@,
            Some(StatusView::ReprocessFailed(why@)),
            Action::Receive,
        ),
{
}

/// What the engine tells of its chains: the applied one, and the one that is being prepared.
pub proof fn law_engine_tells<P>(e: &Engine<P>, applied: &Vec<P>, pending: Option<&Vec<P>>)
    requires
        call_ensures(Engine::<P>::applied, (e,), applied),
        call_ensures(Engine::<P>::pending, (e,), pending),
    ensures
        applied@ == e@.chain,
        match e@.phase {
            PhaseView::Probing(dlls) => pending is Some && pending->0@ == dlls,
            PhaseView::Finding { dlls, .. } => pending is Some && pending->0@ == dlls,
            PhaseView::Spawning { dlls } => pending is Some && pending->0@ == dlls,
            PhaseView::Building { dlls } => pending is Some && pending->0@ == dlls,
            PhaseView::Filling { dlls, .. } => pending is Some && pending->0@ == dlls,
            _ => pending is None,
        },
{
}

/// What is heard and shown after a turn: what the turn cleared is gone, what it published is heard,
/// and the first of a chain is ready and named.
pub proof fn law_output_takes_a_turn(output: &mut Output, turn: &Turn)
    requires
        call_ensures(Output::take, (output, turn), ()),
    ensures
        final(output)@.ready <==> turn@.publish == Publish::First || (old(output)@.ready
            && !turn@.clear_output),
        final(output)@.bypass <==> turn@.publish == Publish::Nothing && (old(output)@.bypass
            || turn@.clear_output),
        turn@.names matches Some(names) ==> final(output)@.names == names,
        turn@.names is None && turn@.clear_output ==> final(output)@.names.len() == 0,
        turn@.names is None && !turn@.clear_output ==> final(output)@.names == old(output)@.names,
{
}

/// At first nothing is ready, the source is heard, and no stage has a name.
pub proof fn law_new_output(output: Output)
    requires
        call_ensures(Output::new, (), output),
    ensures
        !output.ready,
        output.bypass,
        output@.names.len() == 0,
{
}

/// The lab's chain: for each component, in order, its path, its first entry and its preset.
pub proof fn law_stages_of_the_lab(paths: &[String], presets: &[Vec<u8>], stages: Vec<StageSpec>)
    requires
        call_ensures(stage_specs, (paths, presets), stages),
        paths@.len() == presets@.len(),
    ensures
        stages@.len() == paths@.len(),
        forall|k: int|
            0 <= k < stages@.len() ==> {
                &&& (#[trigger] stages@[k]).dll@ == paths@[k]@
                &&& stages@[k].entry_index == 0
                &&& stages@[k].preset@ == presets@[k]@
            },
{
    let views = crate::protocol::stage_views(stages@);
    let wanted = crate::chain::chain_stages(
        crate::frame::texts(paths@),
        crate::chain::blobs(presets@),
    );
    assert forall|k: int| 0 <= k < stages@.len() implies {
        &&& (#[trigger] stages@[k]).dll@ == paths@[k]@
        &&& stages@[k].entry_index == 0
        &&& stages@[k].preset@ == presets@[k]@
    } by {
        assert(views[k] == wanted[k]);
    }
}

/// A self-test of no stages, or without a worker, ends before it starts.
pub proof fn law_selftest_starts(stages: usize, there: bool, test: Selftest)
    requires
        call_ensures(Selftest::start, (stages, there), test),
    ensures
        test.stages == stages,
        stages == 0 ==> test.phase == TestPhase::Ended(Ending::NoComponents),
        stages > 0 && !there ==> test.phase == TestPhase::Ended(Ending::NoWorker),
        stages > 0 && there ==> test.phase == TestPhase::Spawning,
{
}

/// A self-test builds and runs a chain of each length, one stage longer each time, and judges the
/// longest; the worker is shut down when the last has run or one has failed.
pub proof fn law_selftest_goes_on(test: &mut Selftest, event: TestEvent, quit: bool)
    requires
        call_ensures(Selftest::on_event, (test, event), quit),
        old(test).well_formed(),
        old(test).awaits(event),
    ensures
        final(test).stages == old(test).stages,
        event == TestEvent::Spawned(true) ==> final(test).phase == TestPhase::Building(1) && !quit,
        event == TestEvent::Spawned(false) ==> final(test).phase == TestPhase::Ended(
            Ending::SpawnFailed,
        ) && !quit,
        old(test).phase matches TestPhase::Building(k) ==> {
            &&& event == TestEvent::Built(true) ==> final(test).phase == TestPhase::Processing(k)
                && !quit
            &&& event == TestEvent::Built(false) ==> final(test).phase == TestPhase::Ended(
                Ending::ChainFailed,
            ) && quit
        },
        old(test).phase matches TestPhase::Processing(k) ==> {
            &&& event == TestEvent::Processed(true) && k < old(test).stages ==> final(test).phase
                == TestPhase::Building((k + 1) as usize) && !quit
            &&& event == TestEvent::Processed(true) && k == old(test).stages ==> final(test).phase
                == TestPhase::Judging && quit
            &&& event == TestEvent::Processed(false) ==> final(test).phase == TestPhase::Ended(
                Ending::ProcessFailed,
            ) && quit
        },
        event matches TestEvent::Judged { samples, differs } ==> {
            &&& samples >= 2 && differs ==> final(test).phase == TestPhase::Ended(Ending::Pass)
            &&& samples < 2 || !differs ==> final(test).phase == TestPhase::Ended(Ending::Unchanged)
            &&& !quit
        },
{
}

/// Only a pass exits with 0.
pub proof fn law_exit_status(ending: Ending, status: i32)
    requires
        call_ensures(exit_status, (ending,), status),
    ensures
        ending == Ending::Pass ==> status == 0,
        ending != Ending::Pass ==> status == 1,
{
}

/// A picture is asked for in the first frame beyond the 24th in which a chain is ready, and at the
/// latest in frame 1201; until then a chain that is ready is heard.
pub proof fn law_shot_is_prepared(shot: &mut Shot, ready: bool, picture: bool, r: (bool, ShotAction))
    requires
        call_ensures(Shot::frame, (shot, ready, picture), r),
        old(shot).phase() == ShotPhase::Preparing,
    ensures
        r.0 == ready,
        final(shot).frames() == old(shot).frames() + 1,
        old(shot).frames() + 1 > 1200 || (ready && old(shot).frames() + 1 > 24) ==> r.1
            == ShotAction::Request && final(shot).phase() == ShotPhase::Requested,
        old(shot).frames() + 1 <= 1200 && !(ready && old(shot).frames() + 1 > 24) ==> r.1
            == ShotAction::Wait && final(shot).phase() == ShotPhase::Preparing,
{
}

/// A picture that comes is saved; one that has not come by frame 1800 is given up in the next.
pub proof fn law_shot_is_taken(shot: &mut Shot, ready: bool, picture: bool, r: (bool, ShotAction))
    requires
        call_ensures(Shot::frame, (shot, ready, picture), r),
        old(shot).phase() == ShotPhase::Requested,
    ensures
        !r.0,
        final(shot).frames() == old(shot).frames() + 1,
        picture ==> r.1 == ShotAction::Save && final(shot).phase() == ShotPhase::Done,
        !picture && old(shot).frames() + 1 > 1800 ==> r.1 == ShotAction::GiveUp && final(shot).phase()
            == ShotPhase::Done,
        !picture && old(shot).frames() + 1 <= 1800 ==> r.1 == ShotAction::Wait && final(shot).phase()
            == ShotPhase::Requested,
{
}

/// After that, nothing is done any more.
pub proof fn law_shot_is_done(
    shot: &mut Shot,
    ready: bool,
    picture: bool,
    r: (bool, ShotAction),
    new_shot: Shot,
)
    requires
        call_ensures(Shot::frame, (shot, ready, picture), r),
        old(shot).phase() == ShotPhase::Done,
        call_ensures(Shot::new, (), new_shot),
    ensures
        r == (false, ShotAction::Wait),
        final(shot).phase() == ShotPhase::Done,
        new_shot.phase() == ShotPhase::Preparing,
        new_shot.frames() == 0,
{
}

} // verus!
