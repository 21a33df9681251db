//! The headless self-test: chains of growing length are built and run over the worker, each stage
//! compounding on the output of the one before it.
use vstd::prelude::*;

verus! {

/// How a self-test ends.
#[derive(Debug, Clone, Copy, PartialEq, Eq, Structural)]
pub enum Ending {
    /// No 64-bit component was found.
    NoComponents,
    /// The 64-bit worker is not there.
    NoWorker,
    SpawnFailed,
    ChainFailed,
    ProcessFailed,
    /// The full chain gave back what went in.
    Unchanged,
    Pass,
}

/// What a self-test waits for.
#[derive(Debug, Clone, Copy, PartialEq, Eq, Structural)]
pub enum TestPhase {
    /// The worker's start.
    Spawning,
    /// The build of the chain's first so many stages.
    Building(usize),
    /// The track, processed by the chain's first so many stages.
    Processing(usize),
    /// Whether the full chain's output differs from the source.
    Judging,
    Ended(Ending),
}

/// What a self-test is told.
#[derive(Debug, Clone, Copy, PartialEq, Eq, Structural)]
pub enum TestEvent {
    Spawned(bool),
    Built(bool),
    Processed(bool),
    /// The number of samples that came out of the full chain, and whether one of them differs from
    /// its source.
    Judged { samples: usize, differs: bool },
}

/// A self-test of a chain of `stages` stages.
#[derive(Debug, Clone, Copy, PartialEq, Eq, Structural)]
pub struct Selftest {
    pub stages: usize,
    pub phase: TestPhase,
}

impl Selftest {
    /// A chain under test is one of the lengths from one stage to all.
    pub open spec fn well_formed(self) -> bool {
        match self.phase {
            TestPhase::Spawning => self.stages > 0,
            TestPhase::Building(k) => 1 <= k <= self.stages,
            TestPhase::Processing(k) => 1 <= k <= self.stages,
            TestPhase::Judging => self.stages > 0,
            TestPhase::Ended(_) => true,
        }
    }

    /// Whether this is what the self-test waits for.
    pub open spec fn awaits(self, event: TestEvent) -> bool {
        match event {
            TestEvent::Spawned(_) => self.phase is Spawning,
            TestEvent::Built(_) => self.phase is Building,
            TestEvent::Processed(_) => self.phase is Processing,
            TestEvent::Judged { .. } => self.phase is Judging,
        }
    }

    /// What comes next.
    pub open spec fn next(self, event: TestEvent) -> TestPhase {
        match event {
            TestEvent::Spawned(ok) => if ok {
                TestPhase::Building(1)
            } else {
                TestPhase::Ended(Ending::SpawnFailed)
            },
            TestEvent::Built(ok) => if ok {
                TestPhase::Processing(self.phase->Building_0)
            } else {
                TestPhase::Ended(Ending::ChainFailed)
            },
            TestEvent::Processed(ok) => if !ok {
                TestPhase::Ended(Ending::ProcessFailed)
            } else if self.phase->Processing_0 < self.stages {
                TestPhase::Building((self.phase->Processing_0 + 1) as usize)
            } else {
                TestPhase::Judging
            },
            TestEvent::Judged { samples, differs } => if samples >= 2 && differs {
                TestPhase::Ended(Ending::Pass)
            } else {
                TestPhase::Ended(Ending::Unchanged)
            },
        }
    }

    /// A self-test of a chain of `stages` stages, on a worker that may be there.
    pub fn start(stages: usize, worker_there: bool) -> (test: Selftest)
        ensures
            test.well_formed(),
            test.stages == stages,
            test.phase == (if stages == 0 {
                TestPhase::Ended(Ending::NoComponents)
            } else if !worker_there {
                TestPhase::Ended(Ending::NoWorker)
            } else {
                TestPhase::Spawning
            }),
    {
        let phase: TestPhase = if stages == 0 {
            TestPhase::Ended(Ending::NoComponents)
        } else if !worker_there {
            TestPhase::Ended(Ending::NoWorker)
        } else {
            TestPhase::Spawning
        };
        Selftest { stages, phase }
    }

    /// Takes what happened. Says whether to shut the worker down: after the full chain ran, and
    /// where a chain failed.
    pub fn on_event(&mut self, event: TestEvent) -> (quit_worker: bool)
        requires
            old(self).well_formed(),
            old(self).awaits(event),
        ensures
            final(self).well_formed(),
            final(self).stages == old(self).stages,
            final(self).phase == old(self).next(event),
            quit_worker == ((old(self).phase is Building || old(self).phase is Processing) && !(
            final(self).phase is Building || final(self).phase is Processing)),
    {
        match self.phase {
            TestPhase::Spawning => {
                if let TestEvent::Spawned(true) = event {
                    self.phase = TestPhase::Building(1);
                } else {
                    self.phase = TestPhase::Ended(Ending::SpawnFailed);
                }
                false
            },
            TestPhase::Building(k) => {
                if let TestEvent::Built(true) = event {
                    self.phase = TestPhase::Processing(k);
                    false
                } else {
                    self.phase = TestPhase::Ended(Ending::ChainFailed);
                    true
                }
            },
            TestPhase::Processing(k) => {
                if let TestEvent::Processed(true) = event {
                    if k < self.stages {
                        self.phase = TestPhase::Building(k + 1);
                        false
                    } else {
                        self.phase = TestPhase::Judging;
                        true
                    }
                } else {
                    self.phase = TestPhase::Ended(Ending::ProcessFailed);
                    true
                }
            },
            TestPhase::Judging => {
                self.phase = TestPhase::Ended(Ending::Unchanged);
                if let TestEvent::Judged { samples, differs } = event {
                    if samples >= 2 && differs {
                        self.phase = TestPhase::Ended(Ending::Pass);
                    }
                }
                false
            },
            TestPhase::Ended(_) => false,
        }
    }
}

/// The program's exit status for how a self-test ended: 0 if the chain changed the signal, or else 1.
pub fn exit_status(ending: Ending) -> (status: i32)
    ensures
        status == (if ending == Ending::Pass {
            0int
        } else {
            1
        }),
{
    match ending {
        Ending::Pass => 0,
        _ => 1,
    }
}

/// The self-test after these events, which it awaits one after the other.
pub open spec fn outcome(test: Selftest, events: Seq<TestEvent>) -> Option<Selftest>
    decreases events.len(),
{
    if events.len() == 0 {
        Some(test)
    } else if test.awaits(events[0]) {
        outcome(Selftest { phase: test.next(events[0]), ..test }, events.drop_first())
    } else {
        None
    }
}

/// How many events are left before a pass.
pub open spec fn distance(test: Selftest) -> int {
    match test.phase {
        TestPhase::Spawning => 2 * test.stages + 2,
        TestPhase::Building(k) => 2 * (test.stages - k) + 3,
        TestPhase::Processing(k) => 2 * (test.stages - k) + 2,
        TestPhase::Judging => 1,
        TestPhase::Ended(_) => 0,
    }
}

/// Whether an event is a success.
pub open spec fn succeeds(event: TestEvent) -> bool {
    match event {
        TestEvent::Spawned(ok) => ok,
        TestEvent::Built(ok) => ok,
        TestEvent::Processed(ok) => ok,
        TestEvent::Judged { samples, differs } => samples >= 2 && differs,
    }
}

/// A self-test passes only after the worker started, a chain of every length from one stage to all
/// was built and processed the track, and the full chain changed the signal: two events for each
/// length, besides the first and the last, all of them successes.
pub proof fn law_pass_takes_every_length(test: Selftest, events: Seq<TestEvent>)
    requires
        test.well_formed(),
        !(test.phase is Ended),
        outcome(test, events) matches Some(end) && end.phase == TestPhase::Ended(Ending::Pass),
    ensures
        events.len() == distance(test),
        forall|k: int| 0 <= k < events.len() ==> succeeds(#[trigger] events[k]),
    decreases events.len(),
{
    if events.len() > 0 {
        let next = Selftest { phase: test.next(events[0]), ..test };
        let rest = events.drop_first();
        if next.phase is Ended {
            if rest.len() > 0 {
                assert(!next.awaits(rest[0]));
                assert(outcome(next, rest) is None);
            }
            assert(succeeds(events[0]));
        } else {
            law_pass_takes_every_length(next, rest);
            assert forall|k: int| 0 <= k < events.len() implies succeeds(#[trigger] events[k]) by {
                if k > 0 {
                    assert(rest[k - 1] == events[k]);
                }
            }
        }
    }
}

} // verus!
