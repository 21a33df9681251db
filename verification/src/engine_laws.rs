//! What holds of the engine over any course of events.
use vstd::prelude::*;
use crate::engine::{
    at_rest, first_other, one_arch, step, Action, EngineView, Event, Held, PhaseView, Probe, Publish,
};
use crate::output::{no_output, output_after, output_chosen, OutputView};
use crate::pe::PeArch;
use crate::status::StatusView;

verus! {

/// Whether the engine, from `s` on, can be told these events one after the other.
pub open spec fn possible<P>(s: EngineView<P>, events: Seq<Event<P>>) -> bool
    decreases events.len(),
{
    events.len() == 0 || {
        &&& s.awaits(events[0])
        &&& possible(step(s, events[0]).0, events.drop_first())
    }
}

/// The engine after these events.
pub open spec fn after<P>(s: EngineView<P>, events: Seq<Event<P>>) -> EngineView<P>
    decreases events.len(),
{
    if events.len() == 0 {
        s
    } else {
        after(step(s, events[0]).0, events.drop_first())
    }
}

/// How many workers were started by these events.
pub open spec fn started<P>(events: Seq<Event<P>>) -> int
    decreases events.len(),
{
    if events.len() == 0 {
        0
    } else {
        (if events[0] matches Event::Spawned(Ok(_)) {
            1int
        } else {
            0
        }) + started(events.drop_first())
    }
}

/// How many workers the engine had shut down in the course of these events.
pub open spec fn shut_down<P>(s: EngineView<P>, events: Seq<Event<P>>) -> int
    decreases events.len(),
{
    if events.len() == 0 {
        0
    } else {
        (if step(s, events[0]).1.quit_worker {
            1int
        } else {
            0
        }) + shut_down(step(s, events[0]).0, events.drop_first())
    }
}

/// The number of workers held.
pub open spec fn held_count(held: Held) -> int {
    if held == Held::Absent {
        0
    } else {
        1
    }
}

/// No worker is lost or shut down twice: whatever happens, the workers started are those shut down
/// and the one, if any, that the engine holds. A stopped engine holds none.
pub proof fn law_every_worker_is_accounted_for<P>(s: EngineView<P>, events: Seq<Event<P>>)
    requires
        s.well_formed(),
        possible(s, events),
    ensures
        after(s, events).well_formed(),
        held_count(s.held) + started(events) == shut_down(s, events) + held_count(
            after(s, events).held,
        ),
        after(s, events).phase is Stopped ==> after(s, events).held == Held::Absent,
    decreases events.len(),
{
    if events.len() > 0 {
        law_every_worker_is_accounted_for(step(s, events[0]).0, events.drop_first());
    }
}

/// What is heard and shown after these events, where the user chooses what to hear after each.
pub open spec fn output<P>(
    s: EngineView<P>,
    was: OutputView,
    events: Seq<Event<P>>,
    chosen: Seq<bool>,
) -> OutputView
    decreases events.len(),
{
    if events.len() == 0 {
        was
    } else {
        let (next, turn) = step(s, events[0]);
        output(
            next,
            output_chosen(output_after(was, turn), chosen[0]),
            events.drop_first(),
            chosen.drop_first(),
        )
    }
}

/// Whether what is heard and shown is that of the engine: processed audio is ready exactly while a
/// worker hosts the applied chain, and until then the source is heard and no stage has a name.
pub open spec fn agrees<P>(s: EngineView<P>, output: OutputView) -> bool {
    &&& output.ready <==> s.held == Held::Live
    &&& !output.ready ==> output == no_output()
}

/// Processed audio is ready exactly while a worker hosts the applied chain: never while a new chain
/// is being prepared or after one failed. Until it is ready the source is heard, whatever the user
/// chooses, and no stage has a name.
pub proof fn law_ready_while_a_chain_is_hosted<P>(
    s: EngineView<P>,
    was: OutputView,
    events: Seq<Event<P>>,
    chosen: Seq<bool>,
)
    requires
        s.well_formed(),
        possible(s, events),
        agrees(s, was),
        chosen.len() == events.len(),
    ensures
        !(after(s, events).phase is Stopped) ==> agrees(
            after(s, events),
            output(s, was, events, chosen),
        ),
    decreases events.len(),
{
    if events.len() > 0 {
        let (next, turn) = step(s, events[0]);
        reveal_with_fuel(possible, 2);
        reveal_with_fuel(after, 2);
        if !(next.phase is Stopped) {
            let now = output_chosen(output_after(was, turn), chosen[0]);
            assert(agrees(next, now));
            law_ready_while_a_chain_is_hosted(
                next,
                now,
                events.drop_first(),
                chosen.drop_first(),
            );
        }
    }
}

/// The names that are shown belong to the applied chain: they come with it, are those of its build,
/// and stay as long as it does.
pub proof fn law_names_belong_to_the_chain<P>(s: EngineView<P>, was: OutputView, event: Event<P>)
    requires
        s.well_formed(),
        s.awaits(event),
        agrees(s, was),
    ensures
        ({
            let (next, turn) = step(s, event);
            let now = output_after(was, turn);
            next.held == Held::Live ==> if s.held == Held::Live {
                now.names == was.names && next.chain == s.chain
            } else {
                s.phase matches PhaseView::Filling { dlls, names } && now.names == names
                    && next.chain == dlls && !now.bypass
            }
        }),
{
}

/// A chain of one architecture that builds and processes becomes the applied one, whatever was
/// applied before, on the worker of its architecture. It is heard, and its stages have their names.
pub proof fn law_chain_gets_applied<P>(
    s: EngineView<P>,
    dlls: Seq<P>,
    probes: Seq<Probe>,
    names: Seq<Seq<char>>,
    delta: Seq<char>,
    was: OutputView,
)
    requires
        s.well_formed(),
        s.phase is Idle,
        dlls.len() > 0,
        probes.len() == dlls.len(),
        one_arch(probes),
    ensures
        ({
            let x86 = probes[0].arch == PeArch::X86;
            let told = step(s, Event::SetChain(dlls));
            let found = step(told.0, Event::Probed(probes));
            let spawn = step(found.0, Event::WorkerFound(true));
            let build = step(spawn.0, Event::Spawned(Ok(())));
            let fill = step(build.0, Event::Built(Ok(names)));
            let done = step(fill.0, Event::Processed(Ok(delta)));
            &&& told.1.quit_worker == (s.held == Held::Live)
            &&& told.1.next == Action::Probe
            &&& found.1.next == (Action::FindWorker { x86 })
            &&& spawn.1.next == (Action::Spawn { x86 })
            &&& build.1.next == Action::Build
            &&& fill.1.next == Action::Process
            &&& done.1.next == Action::Receive
            &&& done.1.publish == Publish::First
            &&& done.1.names == Some(names)
            &&& done.1.status == Some(StatusView::Ready { names, delta })
            &&& done.0.held == Held::Live
            &&& done.0.chain == dlls
            &&& done.0.phase is Idle
            &&& output_after(was, done.1) == (OutputView { ready: true, bypass: false, names })
        }),
{
}

/// A chain that mixes architectures is refused, naming a component whose architecture is not the
/// first one's, and no worker is started for it.
pub proof fn law_mixed_chain_is_refused<P>(s: EngineView<P>, dlls: Seq<P>, probes: Seq<Probe>)
    requires
        s.well_formed(),
        s.phase is Idle,
        dlls.len() > 0,
        probes.len() == dlls.len(),
        !one_arch(probes),
    ensures
        ({
            let told = step(s, Event::SetChain(dlls));
            let refused = step(told.0, Event::Probed(probes));
            let other = first_other(probes, probes[0].arch, 0);
            &&& refused.0 == at_rest::<P>()
            &&& 0 < other < probes.len()
            &&& probes[other].arch != probes[0].arch
            &&& refused.1.status == Some(StatusView::MixedArch(probes[other].file@))
            &&& refused.1.next == Action::Receive
        }),
{
    lemma_first_other(probes, probes[0].arch, 0);
}

/// A stage's dialog leaves the chain, its worker and its names as they are. Closing it keeps the new
/// preset for that stage and has the track processed again, which is then heard.
pub proof fn law_dialog_keeps_the_chain<P>(
    s: EngineView<P>,
    stage: nat,
    blob: Seq<u8>,
    result: Result<Seq<char>, Seq<char>>,
    was: OutputView,
)
    requires
        s.well_formed(),
        s.phase is Idle,
        stage < s.chain.len(),
    ensures
        ({
            let open = step(s, Event::ConfigStage(stage));
            let closed = step(open.0, Event::Configured(Ok(blob)));
            let done = step(closed.0, Event::Processed(result));
            &&& open.1.next is Configure
            &&& closed.1.save_preset == Some((stage, blob))
            &&& closed.1.next == Action::Process
            &&& done.0 == s
            &&& (done.1.publish == Publish::Again <==> result is Ok)
            &&& !open.1.quit_worker && !closed.1.quit_worker && !done.1.quit_worker
            &&& output_after(was, open.1) == was
            &&& output_after(was, closed.1) == was
            &&& output_after(was, done.1) == (OutputView { bypass: was.bypass && result is Err, ..was })
        }),
{
}

proof fn lemma_first_other(probes: Seq<Probe>, arch: PeArch, i: int)
    requires
        0 <= i <= probes.len(),
    ensures
        i <= first_other(probes, arch, i) <= probes.len(),
        forall|k: int|
            i <= k < first_other(probes, arch, i) ==> (#[trigger] probes[k]).arch == arch,
        first_other(probes, arch, i) < probes.len() ==> probes[first_other(probes, arch, i)].arch
            != arch,
    decreases probes.len() - i,
{
    if i < probes.len() && probes[i].arch == arch {
        lemma_first_other(probes, arch, i + 1);
    }
}

} // verus!
