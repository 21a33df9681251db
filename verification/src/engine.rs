//! The engine behind the rack: it owns the worker, and takes the chain edits and configuration
//! requests of the rack one after the other.
//!
//! The engine decides; its caller acts. Each `on_` method takes what happened and gives back a
//! [`Turn`]: what to do at once, and which [`Action`] to carry out next and report on.
//!
//! A component is known here only by a handle of type `P`.
use vstd::prelude::*;
use crate::frame::{copy_texts, texts};
use crate::pe::PeArch;
use crate::protocol::low32;
use crate::status::{Status, StatusView};

verus! {

/// A chain edit (rebuild) or a per-stage configuration request.
pub enum EngineMsg<P> {
    SetChain(Vec<P>),
    ConfigStage(usize),
    Quit,
}

/// The worker process that the engine holds.
#[derive(Debug, Clone, Copy, PartialEq, Eq)]
pub enum Held {
    Absent,
    /// Spawned for a chain that is being built.
    Fresh,
    /// Hosting the applied chain.
    Live,
}

/// What the engine waits for.
pub enum Phase<P> {
    /// A message of the rack.
    Idle,
    /// The architecture of each component of a new chain.
    Probing(Vec<P>),
    /// Whether the worker that the new chain needs is there.
    Finding { dlls: Vec<P>, x86: bool },
    /// The worker's start.
    Spawning { dlls: Vec<P> },
    /// The chain's build.
    Building { dlls: Vec<P> },
    /// The track, processed by the new chain.
    Filling { dlls: Vec<P>, names: Vec<String> },
    /// The end of a stage's dialog.
    Configuring(usize),
    /// The track, processed again after a stage's dialog.
    Refilling(usize),
    /// Nothing more.
    Stopped,
}

/// What to do next.
#[derive(Debug, Clone, Copy, PartialEq, Eq)]
pub enum Action {
    /// Wait for a message, then [`Engine::on_message`].
    Receive,
    /// Probe each component of the chain, then [`Engine::on_probed`].
    Probe,
    /// See whether the worker is there, then [`Engine::on_worker_found`].
    FindWorker { x86: bool },
    /// Stage the companion DLLs, start the worker, then [`Engine::on_spawned`].
    Spawn { x86: bool },
    /// Build the chain with each component's kept preset, then [`Engine::on_built`].
    Build,
    /// Stream the track through the chain, then [`Engine::on_processed`].
    Process,
    /// Open the stage's dialog, then [`Engine::on_configured`].
    Configure { stage: u32 },
    /// End.
    Stop,
}

/// What becomes of audio that was just processed.
#[derive(Debug, Clone, Copy, PartialEq, Eq)]
pub enum Publish {
    Nothing,
    /// It is what is heard now.
    Again,
    /// It is what is heard now, for the first time of this chain: the chain is ready.
    First,
}

/// What to do at once, in this order, and what to do next.
pub struct Turn {
    /// Shut the worker down.
    pub quit_worker: bool,
    /// Nothing processed is ready any more: what is heard is the source, and no stage has a name.
    /// For this field, `publish` and `names` see [`crate::output::Output::take`].
    pub clear_output: bool,
    /// Keep this blob as the preset of the component at this stage.
    pub save_preset: Option<(usize, Vec<u8>)>,
    pub publish: Publish,
    pub status: Option<Status>,
    /// The real names of the chain's stages.
    pub names: Option<Vec<String>>,
    pub next: Action,
}

/// The values in a [`Turn`].
pub struct TurnView {
    pub quit_worker: bool,
    pub clear_output: bool,
    pub save_preset: Option<(nat, Seq<u8>)>,
    pub publish: Publish,
    pub status: Option<StatusView>,
    pub names: Option<Seq<Seq<char>>>,
    pub next: Action,
}

impl View for Turn {
    type V = TurnView;

    open spec fn view(&self) -> TurnView {
        TurnView {
            quit_worker: self.quit_worker,
            clear_output: self.clear_output,
            save_preset: match self.save_preset {
                Some((stage, blob)) => Some((stage as nat, blob@)),
                None => None,
            },
            publish: self.publish,
            status: match self.status {
                Some(status) => Some(status@),
                None => None,
            },
            names: match self.names {
                Some(names) => Some(texts(names@)),
                None => None,
            },
            next: self.next,
        }
    }
}

/// A turn that only goes on to `next`.
pub open spec fn go_on(next: Action) -> TurnView {
    TurnView {
        quit_worker: false,
        clear_output: false,
        save_preset: None,
        publish: Publish::Nothing,
        status: None,
        names: None,
        next,
    }
}

/// A turn that tells `status` and goes on to `next`.
pub open spec fn tell(status: StatusView, next: Action) -> TurnView {
    TurnView { status: Some(status), ..go_on(next) }
}

/// What probing a component found.
pub struct Probe {
    pub arch: PeArch,
    /// The component's file name.
    pub file: String,
}

/// Whether all components have one architecture.
pub open spec fn one_arch(probes: Seq<Probe>) -> bool {
    forall|k: int| 0 <= k < probes.len() ==> (#[trigger] probes[k]).arch == probes[0].arch
}

/// The first component from `i` on whose architecture is not `arch`.
pub open spec fn first_other(probes: Seq<Probe>, arch: PeArch, i: int) -> int
    decreases probes.len() - i,
{
    if i < 0 || i >= probes.len() || probes[i].arch != arch {
        i
    } else {
        first_other(probes, arch, i + 1)
    }
}

/// What the engine is told.
pub enum Event<P> {
    SetChain(Seq<P>),
    ConfigStage(nat),
    Quit,
    Probed(Seq<Probe>),
    WorkerFound(bool),
    Spawned(Result<(), Seq<char>>),
    Built(Result<Seq<Seq<char>>, Seq<char>>),
    Processed(Result<Seq<char>, Seq<char>>),
    Configured(Result<Seq<u8>, Seq<char>>),
}

/// What an [`Engine`] waits for, as values.
pub enum PhaseView<P> {
    Idle,
    Probing(Seq<P>),
    Finding { dlls: Seq<P>, x86: bool },
    Spawning { dlls: Seq<P> },
    Building { dlls: Seq<P> },
    Filling { dlls: Seq<P>, names: Seq<Seq<char>> },
    Configuring(nat),
    Refilling(nat),
    Stopped,
}

/// The values in an [`Engine`].
pub struct EngineView<P> {
    pub held: Held,
    pub chain: Seq<P>,
    pub phase: PhaseView<P>,
}

impl<P> EngineView<P> {
    /// What holds of the engine between any two turns: while it waits for a message it hosts a
    /// chain exactly if that has a stage; while it prepares a new chain no chain is applied, and
    /// the one worker it holds, if any, is the new one; a stage's dialog belongs to a stage of the
    /// applied chain.
    pub open spec fn well_formed(self) -> bool {
        let preparing = |held: Held, dlls: Seq<P>|
            self.held == held && self.chain.len() == 0 && dlls.len() > 0;
        match self.phase {
            PhaseView::Idle => self.held != Held::Fresh && (self.held == Held::Live
                <==> self.chain.len() > 0),
            PhaseView::Probing(dlls) => preparing(Held::Absent, dlls),
            PhaseView::Finding { dlls, .. } => preparing(Held::Absent, dlls),
            PhaseView::Spawning { dlls } => preparing(Held::Absent, dlls),
            PhaseView::Building { dlls } => preparing(Held::Fresh, dlls),
            PhaseView::Filling { dlls, .. } => preparing(Held::Fresh, dlls),
            PhaseView::Configuring(stage) => self.held == Held::Live && stage < self.chain.len(),
            PhaseView::Refilling(stage) => self.held == Held::Live && stage < self.chain.len(),
            PhaseView::Stopped => self.held == Held::Absent,
        }
    }

    /// Whether this is what the engine waits for.
    pub open spec fn awaits(self, event: Event<P>) -> bool {
        match event {
            Event::SetChain(_) => self.phase is Idle,
            Event::ConfigStage(_) => self.phase is Idle,
            Event::Quit => self.phase is Idle,
            Event::Probed(probes) => self.phase matches PhaseView::Probing(dlls) && dlls.len()
                == probes.len(),
            Event::WorkerFound(_) => self.phase is Finding,
            Event::Spawned(_) => self.phase is Spawning,
            Event::Built(_) => self.phase is Building,
            Event::Processed(_) => self.phase is Filling || self.phase is Refilling,
            Event::Configured(_) => self.phase is Configuring,
        }
    }

    /// The same engine, waiting for `phase`.
    pub open spec fn waiting(self, phase: PhaseView<P>) -> EngineView<P> {
        EngineView { phase, ..self }
    }
}

/// An engine that waits for a message, with no chain applied and no worker held.
pub open spec fn at_rest<P>() -> EngineView<P> {
    EngineView { held: Held::Absent, chain: seq![], phase: PhaseView::Idle }
}

/// A new chain puts an end to the old one and its worker, whatever comes of it; an empty one
/// leaves it at that.
pub open spec fn set_chain<P>(s: EngineView<P>, dlls: Seq<P>) -> (EngineView<P>, TurnView) {
    if dlls.len() == 0 {
        (
            at_rest(),
            TurnView {
                quit_worker: s.held == Held::Live,
                clear_output: true,
                ..tell(StatusView::EmptyChain, Action::Receive)
            },
        )
    } else {
        (
            at_rest().waiting(PhaseView::Probing(dlls)),
            TurnView {
                quit_worker: s.held == Held::Live,
                clear_output: true,
                ..go_on(Action::Probe)
            },
        )
    }
}

/// A stage's dialog opens if the stage is in the applied chain.
pub open spec fn config_stage<P>(s: EngineView<P>, stage: nat) -> (EngineView<P>, TurnView) {
    if s.held != Held::Live {
        (s, tell(StatusView::NoChain, Action::Receive))
    } else if stage >= s.chain.len() {
        (s, tell(StatusView::StageGone, Action::Receive))
    } else {
        (
            s.waiting(PhaseView::Configuring(stage)),
            tell(
                StatusView::OpeningConfig(stage),
                Action::Configure { stage: low32(stage) },
            ),
        )
    }
}

/// One worker process hosts the chain, so all stages must share an architecture: a chain that
/// mixes them is refused, naming the first that differs.
pub open spec fn probed<P>(s: EngineView<P>, probes: Seq<Probe>) -> (EngineView<P>, TurnView) {
    let dlls = s.phase->Probing_0;
    let x86 = probes[0].arch == PeArch::X86;
    if one_arch(probes) {
        (s.waiting(PhaseView::Finding { dlls, x86 }), go_on(Action::FindWorker { x86 }))
    } else {
        let other = first_other(probes, probes[0].arch, 0);
        (at_rest(), tell(StatusView::MixedArch(probes[other].file@), Action::Receive))
    }
}

/// The track was processed, or not. A new chain that cannot process the track is given up and its
/// worker shut down; an applied one stays.
pub open spec fn processed<P>(s: EngineView<P>, result: Result<Seq<char>, Seq<char>>) -> (
    EngineView<P>,
    TurnView,
) {
    match (s.phase, result) {
        (PhaseView::Filling { dlls, names }, Ok(delta)) => (
            EngineView { held: Held::Live, chain: dlls, phase: PhaseView::Idle },
            TurnView {
                publish: Publish::First,
                names: Some(names),
                ..tell(StatusView::Ready { names, delta }, Action::Receive)
            },
        ),
        (PhaseView::Filling { .. }, Err(e)) => (
            at_rest(),
            TurnView {
                quit_worker: true,
                ..tell(StatusView::ProcessFailed(e), Action::Receive)
            },
        ),
        (_, Ok(delta)) => (
            s.waiting(PhaseView::Idle),
            TurnView {
                publish: Publish::Again,
                ..tell(
                    StatusView::Reconfigured { stage: s.phase->Refilling_0, delta },
                    Action::Receive,
                )
            },
        ),
        (_, Err(e)) => (
            s.waiting(PhaseView::Idle),
            tell(StatusView::ReprocessFailed(e), Action::Receive),
        ),
    }
}

/// What becomes of the engine when it is told `event`, and what is to be done.
pub open spec fn step<P>(s: EngineView<P>, event: Event<P>) -> (EngineView<P>, TurnView) {
    match event {
        Event::SetChain(dlls) => set_chain(s, dlls),
        Event::ConfigStage(stage) => config_stage(s, stage),
        Event::Quit => (
            EngineView { held: Held::Absent, ..s.waiting(PhaseView::Stopped) },
            TurnView { quit_worker: s.held == Held::Live, ..go_on(Action::Stop) },
        ),
        Event::Probed(probes) => probed(s, probes),
        Event::WorkerFound(found) => {
            let dlls = s.phase->Finding_dlls;
            let x86 = s.phase->x86;
            if found {
                (
                    s.waiting(PhaseView::Spawning { dlls }),
                    tell(
                        StatusView::Building { stages: dlls.len(), x86 },
                        Action::Spawn { x86 },
                    ),
                )
            } else {
                (at_rest(), tell(StatusView::WorkerMissing { x86 }, Action::Receive))
            }
        },
        Event::Spawned(result) => match result {
            Ok(_) => (
                EngineView {
                    held: Held::Fresh,
                    ..s.waiting(PhaseView::Building { dlls: s.phase->Spawning_dlls })
                },
                go_on(Action::Build),
            ),
            Err(e) => (at_rest(), tell(StatusView::SpawnFailed(e), Action::Receive)),
        },
        Event::Built(result) => match result {
            Ok(names) => (
                s.waiting(PhaseView::Filling { dlls: s.phase->Building_dlls, names }),
                go_on(Action::Process),
            ),
            Err(e) => (
                at_rest(),
                TurnView {
                    quit_worker: true,
                    ..tell(StatusView::BuildFailed(e), Action::Receive)
                },
            ),
        },
        Event::Processed(result) => processed(s, result),
        Event::Configured(result) => match result {
            Ok(blob) => {
                let stage = s.phase->Configuring_0;
                (
                    s.waiting(PhaseView::Refilling(stage)),
                    TurnView { save_preset: Some((stage, blob)), ..go_on(Action::Process) },
                )
            },
            Err(e) => (
                s.waiting(PhaseView::Idle),
                tell(StatusView::ConfigFailed(e), Action::Receive),
            ),
        },
    }
}

/// The engine's state.
pub struct Engine<P> {
    held: Held,
    /// The applied chain.
    chain: Vec<P>,
    phase: Phase<P>,
}

impl<P> View for Engine<P> {
    type V = EngineView<P>;

    closed spec fn view(&self) -> EngineView<P> {
        EngineView { held: self.held, chain: self.chain@, phase: self.phase@ }
    }
}

impl<P> View for Phase<P> {
    type V = PhaseView<P>;

    open spec fn view(&self) -> PhaseView<P> {
        match *self {
            Phase::Idle => PhaseView::Idle,
            Phase::Probing(dlls) => PhaseView::Probing(dlls@),
            Phase::Finding { dlls, x86 } => PhaseView::Finding { dlls: dlls@, x86 },
            Phase::Spawning { dlls } => PhaseView::Spawning { dlls: dlls@ },
            Phase::Building { dlls } => PhaseView::Building { dlls: dlls@ },
            Phase::Filling { dlls, names } => PhaseView::Filling {
                dlls: dlls@,
                names: texts(names@),
            },
            Phase::Configuring(stage) => PhaseView::Configuring(stage as nat),
            Phase::Refilling(stage) => PhaseView::Refilling(stage as nat),
            Phase::Stopped => PhaseView::Stopped,
        }
    }
}

impl<P> View for EngineMsg<P> {
    type V = Event<P>;

    open spec fn view(&self) -> Event<P> {
        match *self {
            EngineMsg::SetChain(dlls) => Event::SetChain(dlls@),
            EngineMsg::ConfigStage(stage) => Event::ConfigStage(stage as nat),
            EngineMsg::Quit => Event::Quit,
        }
    }
}

/// A text's characters, on either side.
pub open spec fn plain<T: View>(result: Result<T, String>) -> Result<T::V, Seq<char>> {
    match result {
        Ok(value) => Ok(value@),
        Err(e) => Err(e@),
    }
}

impl<P> Engine<P> {
    /// An engine without a chain.
    pub fn new() -> (engine: Engine<P>)
        ensures
            engine@ == at_rest::<P>(),
            engine@.well_formed(),
    {
        Engine { held: Held::Absent, chain: Vec::new(), phase: Phase::Idle }
    }

    fn turn(status: Option<Status>, next: Action) -> (turn: Turn)
        ensures
            turn@ == (TurnView {
                status: match status {
                    Some(s) => Some(s@),
                    None => None,
                },
                ..go_on(next)
            }),
    {
        Turn {
            quit_worker: false,
            clear_output: false,
            save_preset: None,
            publish: Publish::Nothing,
            status,
            names: None,
            next,
        }
    }

    /// A message of the rack. A new chain puts an end to the old one and its worker, whatever
    /// comes of it; an empty one leaves it at that. A stage's dialog opens if the stage is in the
    /// applied chain.
    pub fn on_message(&mut self, msg: EngineMsg<P>) -> (turn: Turn)
        requires
            old(self)@.well_formed(),
            old(self)@.awaits(msg@),
        ensures
            final(self)@.well_formed(),
            (final(self)@, turn@) == step(old(self)@, msg@),
    {
        let live: bool = match self.held {
            Held::Live => true,
            _ => false,
        };
        match msg {
            EngineMsg::SetChain(dlls) => {
                self.held = Held::Absent;
                self.chain = Vec::new();
                let mut turn: Turn = if dlls.len() == 0 {
                    Self::turn(Some(Status::EmptyChain), Action::Receive)
                } else {
                    self.phase = Phase::Probing(dlls);
                    Self::turn(None, Action::Probe)
                };
                turn.quit_worker = live;
                turn.clear_output = true;
                turn
            },
            EngineMsg::ConfigStage(stage) => {
                if !live {
                    return Self::turn(Some(Status::NoChain), Action::Receive);
                }
                if stage >= self.chain.len() {
                    return Self::turn(Some(Status::StageGone), Action::Receive);
                }
                self.phase = Phase::Configuring(stage);
                Self::turn(
                    Some(Status::OpeningConfig(stage)),
                    Action::Configure { stage: (stage as u64 % 0x1_0000_0000) as u32 },
                )
            },
            EngineMsg::Quit => {
                self.held = Held::Absent;
                self.phase = Phase::Stopped;
                let mut turn: Turn = Self::turn(None, Action::Stop);
                turn.quit_worker = live;
                turn
            },
        }
    }

    fn take_dlls(&mut self) -> (dlls: Vec<P>)
        ensures
            final(self).held == old(self).held,
            final(self).chain == old(self).chain,
            final(self).chain@.len() == 0 ==> final(self).chain@ == Seq::<P>::empty(),
            final(self).phase is Idle,
            match old(self).phase {
                Phase::Probing(d) => dlls == d,
                Phase::Finding { dlls: d, .. } => dlls == d,
                Phase::Spawning { dlls: d } => dlls == d,
                Phase::Building { dlls: d } => dlls == d,
                _ => dlls@.len() == 0,
            },
    {
        let mut phase: Phase<P> = Phase::Idle;
        std::mem::swap(&mut phase, &mut self.phase);
        match phase {
            Phase::Probing(dlls) => dlls,
            Phase::Finding { dlls, .. } => dlls,
            Phase::Spawning { dlls } => dlls,
            Phase::Building { dlls } => dlls,
            _ => Vec::new(),
        }
    }

    /// The components were probed. One worker process hosts the chain, so all stages must share an
    /// architecture: a chain that mixes them is refused, naming the first that differs.
    pub fn on_probed(&mut self, probes: &[Probe]) -> (turn: Turn)
        requires
            old(self)@.well_formed(),
            old(self)@.awaits(Event::Probed(probes@)),
        ensures
            final(self)@.well_formed(),
            (final(self)@, turn@) == step(old(self)@, Event::Probed(probes@)),
    {
        let dlls: Vec<P> = self.take_dlls();
        let arch: PeArch = probes[0].arch;
        let mut i: usize = 0;
        while i < probes.len()
            invariant
                i <= probes@.len(),
                probes@.len() > 0,
                arch == probes@[0].arch,
                first_other(probes@, arch, 0) == first_other(probes@, arch, i as int),
                forall|k: int| 0 <= k < i ==> (#[trigger] probes@[k]).arch == arch,
                self@ == at_rest::<P>(),
            decreases probes@.len() - i,
        {
            if probes[i].arch != arch {
                return Self::turn(
                    Some(Status::MixedArch(probes[i].file.clone())),
                    Action::Receive,
                );
            }
            i += 1;
        }
        let x86: bool = arch == PeArch::X86;
        self.phase = Phase::Finding { dlls, x86 };
        Self::turn(None, Action::FindWorker { x86 })
    }

    /// Whether the worker that the chain needs is there.
    pub fn on_worker_found(&mut self, found: bool) -> (turn: Turn)
        requires
            old(self)@.well_formed(),
            old(self)@.awaits(Event::WorkerFound(found)),
        ensures
            final(self)@.well_formed(),
            (final(self)@, turn@) == step(old(self)@, Event::WorkerFound(found)),
    {
        let x86: bool = match &self.phase {
            Phase::Finding { x86, .. } => *x86,
            _ => false,
        };
        let dlls: Vec<P> = self.take_dlls();
        if found {
            let stages: usize = dlls.len();
            self.phase = Phase::Spawning { dlls };
            Self::turn(Some(Status::Building { stages, x86 }), Action::Spawn { x86 })
        } else {
            Self::turn(Some(Status::WorkerMissing { x86 }), Action::Receive)
        }
    }

    /// The worker was started, or why not.
    pub fn on_spawned(&mut self, result: Result<(), String>) -> (turn: Turn)
        requires
            old(self)@.well_formed(),
            old(self)@.awaits(Event::Spawned(plain(result))),
        ensures
            final(self)@.well_formed(),
            (final(self)@, turn@) == step(old(self)@, Event::Spawned(plain(result))),
    {
        let dlls: Vec<P> = self.take_dlls();
        match result {
            Ok(_) => {
                self.held = Held::Fresh;
                self.phase = Phase::Building { dlls };
                Self::turn(None, Action::Build)
            },
            Err(e) => Self::turn(Some(Status::SpawnFailed(e)), Action::Receive),
        }
    }

    /// The chain was built, or why not; in that case the worker is shut down.
    pub fn on_built(&mut self, result: Result<Vec<String>, String>) -> (turn: Turn)
        requires
            old(self)@.well_formed(),
            old(self)@.awaits(Event::Built(
                match result {
                    Ok(names) => Ok(texts(names@)),
                    Err(e) => Err(e@),
                },
            )),
        ensures
            final(self)@.well_formed(),
            (final(self)@, turn@) == step(old(self)@, Event::Built(
                match result {
                    Ok(names) => Ok(texts(names@)),
                    Err(e) => Err(e@),
                },
            )),
    {
        let dlls: Vec<P> = self.take_dlls();
        match result {
            Ok(names) => {
                self.phase = Phase::Filling { dlls, names };
                Self::turn(None, Action::Process)
            },
            Err(e) => {
                self.held = Held::Absent;
                let mut turn: Turn = Self::turn(Some(Status::BuildFailed(e)), Action::Receive);
                turn.quit_worker = true;
                turn
            },
        }
    }

    /// A stage's dialog was closed, with the stage's new preset, or why there is none.
    pub fn on_configured(&mut self, result: Result<Vec<u8>, String>) -> (turn: Turn)
        requires
            old(self)@.well_formed(),
            old(self)@.awaits(Event::Configured(plain(result))),
        ensures
            final(self)@.well_formed(),
            (final(self)@, turn@) == step(old(self)@, Event::Configured(plain(result))),
    {
        let stage: usize = match &self.phase {
            Phase::Configuring(stage) => *stage,
            _ => 0,
        };
        match result {
            Ok(blob) => {
                self.phase = Phase::Refilling(stage);
                let mut turn: Turn = Self::turn(None, Action::Process);
                turn.save_preset = Some((stage, blob));
                turn
            },
            Err(e) => {
                self.phase = Phase::Idle;
                Self::turn(Some(Status::ConfigFailed(e)), Action::Receive)
            },
        }
    }

    fn filled(&mut self, dlls: Vec<P>, names: Vec<String>, delta: String) -> (turn: Turn)
        ensures
            final(self)@ == (EngineView { held: Held::Live, chain: dlls@, phase: PhaseView::Idle }),
            turn@ == (TurnView {
                publish: Publish::First,
                names: Some(texts(names@)),
                ..tell(
                    StatusView::Ready { names: texts(names@), delta: delta@ },
                    Action::Receive,
                )
            }),
    {
        self.held = Held::Live;
        self.chain = dlls;
        self.phase = Phase::Idle;
        let copy: Vec<String> = copy_texts(&names);
        let mut turn: Turn = Self::turn(Some(Status::Ready { names: copy, delta }), Action::Receive);
        turn.publish = Publish::First;
        turn.names = Some(names);
        turn
    }

    /// The track was processed, with this change of level, or why not. A new chain that cannot
    /// process the track is given up and its worker shut down; an applied one stays.
    pub fn on_processed(&mut self, result: Result<String, String>) -> (turn: Turn)
        requires
            old(self)@.well_formed(),
            old(self)@.awaits(Event::Processed(plain(result))),
        ensures
            final(self)@.well_formed(),
            (final(self)@, turn@) == step(old(self)@, Event::Processed(plain(result))),
    {
        let mut phase: Phase<P> = Phase::Idle;
        std::mem::swap(&mut phase, &mut self.phase);
        match phase {
            Phase::Filling { dlls, names } => match result {
                Ok(delta) => self.filled(dlls, names, delta),
                Err(e) => {
                    self.held = Held::Absent;
                    assert(self.chain@ =~= Seq::empty());
                    let mut turn: Turn = Self::turn(
                        Some(Status::ProcessFailed(e)),
                        Action::Receive,
                    );
                    turn.quit_worker = true;
                    turn
                },
            },
            Phase::Refilling(stage) => match result {
                Ok(delta) => {
                    let mut turn: Turn = Self::turn(
                        Some(Status::Reconfigured { stage, delta }),
                        Action::Receive,
                    );
                    turn.publish = Publish::Again;
                    turn
                },
                Err(e) => Self::turn(Some(Status::ReprocessFailed(e)), Action::Receive),
            },
            _ => Self::turn(None, Action::Receive),
        }
    }

    /// The components of the applied chain.
    pub fn applied(&self) -> (chain: &Vec<P>)
        ensures
            chain@ == self@.chain,
    {
        &self.chain
    }

    /// The components of the chain that is being prepared.
    pub fn pending(&self) -> (dlls: Option<&Vec<P>>)
        ensures
            match self@.phase {
                PhaseView::Probing(d) => dlls is Some && dlls->0@ == d,
                PhaseView::Finding { dlls: d, .. } => dlls is Some && dlls->0@ == d,
                PhaseView::Spawning { dlls: d } => dlls is Some && dlls->0@ == d,
                PhaseView::Building { dlls: d } => dlls is Some && dlls->0@ == d,
                PhaseView::Filling { dlls: d, .. } => dlls is Some && dlls->0@ == d,
                _ => dlls is None,
            },
    {
        match &self.phase {
            Phase::Probing(d) => Some(d),
            Phase::Finding { dlls, .. } => Some(dlls),
            Phase::Spawning { dlls } => Some(dlls),
            Phase::Building { dlls } => Some(dlls),
            Phase::Filling { dlls, .. } => Some(dlls),
            _ => None,
        }
    }
}

} // verus!
