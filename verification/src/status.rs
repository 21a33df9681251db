//! What the lab tells its user.
use vstd::prelude::*;
use crate::frame::texts;
use crate::text::{decimal, decimal_of, join, joined, with};

verus! {

/// What the engine last did, or why it did not.
#[derive(Debug, Clone, PartialEq, Eq)]
pub enum Status {
    EmptyChain,
    /// The chain mixes architectures; this file differs from the first.
    MixedArch(String),
    /// The worker that the chain needs is not there.
    WorkerMissing { x86: bool },
    /// A chain of so many stages is being built.
    Building { stages: usize, x86: bool },
    SpawnFailed(String),
    BuildFailed(String),
    ProcessFailed(String),
    /// The names of the stages, and the change of level in dB.
    Ready { names: Vec<String>, delta: String },
    /// A stage's dialog is asked for, of a chain that is not there.
    NoChain,
    /// A stage's dialog is asked for, of a stage that is not there.
    StageGone,
    /// The dialog of the stage with this number, counted from 0.
    OpeningConfig(usize),
    ConfigFailed(String),
    ReprocessFailed(String),
    /// The stage's number, counted from 0, and the change of level in dB.
    Reconfigured { stage: usize, delta: String },
}

/// The values in a [`Status`].
pub enum StatusView {
    EmptyChain,
    MixedArch(Seq<char>),
    WorkerMissing { x86: bool },
    Building { stages: nat, x86: bool },
    SpawnFailed(Seq<char>),
    BuildFailed(Seq<char>),
    ProcessFailed(Seq<char>),
    Ready { names: Seq<Seq<char>>, delta: Seq<char> },
    NoChain,
    StageGone,
    OpeningConfig(nat),
    ConfigFailed(Seq<char>),
    ReprocessFailed(Seq<char>),
    Reconfigured { stage: nat, delta: Seq<char> },
}

impl View for Status {
    type V = StatusView;

    open spec fn view(&self) -> StatusView {
        match *self {
            Status::EmptyChain => StatusView::EmptyChain,
            Status::MixedArch(file) => StatusView::MixedArch(file@),
            Status::WorkerMissing { x86 } => StatusView::WorkerMissing { x86 },
            Status::Building { stages, x86 } => StatusView::Building { stages: stages as nat, x86 },
            Status::SpawnFailed(e) => StatusView::SpawnFailed(e@),
            Status::BuildFailed(e) => StatusView::BuildFailed(e@),
            Status::ProcessFailed(e) => StatusView::ProcessFailed(e@),
            Status::Ready { names, delta } => StatusView::Ready {
                names: texts(names@),
                delta: delta@,
            },
            Status::NoChain => StatusView::NoChain,
            Status::StageGone => StatusView::StageGone,
            Status::OpeningConfig(stage) => StatusView::OpeningConfig(stage as nat),
            Status::ConfigFailed(e) => StatusView::ConfigFailed(e@),
            Status::ReprocessFailed(e) => StatusView::ReprocessFailed(e@),
            Status::Reconfigured { stage, delta } => StatusView::Reconfigured {
                stage: stage as nat,
                delta: delta@,
            },
        }
    }
}

/// The name of an architecture.
pub open spec fn arch_name(x86: bool) -> Seq<char> {
    if x86 {
        "x86"@
    } else {
        "x64"@
    }
}

/// The text of a [`Status`].
pub open spec fn status_text(status: StatusView) -> Seq<char> {
    match status {
        StatusView::EmptyChain => "empty chain — add a DSP to start"@,
        StatusView::MixedArch(file) => "chain mixes x86 + x64 ("@ + file
            + " differs) — the worker & protocol support it, but cross-arch needs one worker per arch with blocks routed between them; this demo keeps a chain single-arch (that router is the host app's job — see docs/PROTOCOL.md)"@,
        StatusView::WorkerMissing { x86 } => "the "@ + arch_name(x86)
            + " worker isn't built — build.ps1 builds both"@,
        StatusView::Building { stages, x86 } => "building chain of "@ + decimal_of(stages) + " ("@
            + arch_name(x86) + ") …"@,
        StatusView::SpawnFailed(e) => "worker spawn failed: "@ + e,
        StatusView::BuildFailed(e) => "chain build failed: "@ + e,
        StatusView::ProcessFailed(e) => "process failed: "@ + e,
        StatusView::Ready { names, delta } => "chain ready: "@ + joined(names, " · "@) + "  ("@
            + delta + " dB vs raw)"@,
        StatusView::NoChain => "apply a chain first"@,
        StatusView::StageGone => "stage no longer in the chain — Apply first"@,
        StatusView::OpeningConfig(stage) => "opening stage "@ + decimal_of(stage + 1)
            + "’s config dialog — adjust + OK …"@,
        StatusView::ConfigFailed(e) => "config failed: "@ + e,
        StatusView::ReprocessFailed(e) => "reprocess failed: "@ + e,
        StatusView::Reconfigured { stage, delta } => "stage "@ + decimal_of(stage + 1)
            + " reconfigured — chain now "@ + delta + " dB vs raw"@,
    }
}

fn arch_text(x86: bool) -> (s: &'static str)
    ensures
        s@ == arch_name(x86),
{
    if x86 {
        "x86"
    } else {
        "x64"
    }
}

fn stage_number(stage: usize) -> (s: String)
    ensures
        s@ == decimal_of((stage + 1) as nat),
{
    decimal(stage as u128 + 1)
}

impl Status {
    /// The text of the status.
    pub fn text(&self) -> (s: String)
        ensures
            s@ == status_text(self@),
    {
        match self {
            Status::EmptyChain => "empty chain — add a DSP to start".to_string(),
            Status::SpawnFailed(e) => with("worker spawn failed: ", e.as_str()),
            Status::BuildFailed(e) => with("chain build failed: ", e.as_str()),
            Status::ProcessFailed(e) => with("process failed: ", e.as_str()),
            Status::NoChain => "apply a chain first".to_string(),
            Status::StageGone => "stage no longer in the chain — Apply first".to_string(),
            Status::ConfigFailed(e) => with("config failed: ", e.as_str()),
            Status::ReprocessFailed(e) => with("reprocess failed: ", e.as_str()),
            Status::MixedArch(file) => {
                let mut s: String = with("chain mixes x86 + x64 (", file.as_str());
                s.append(
                    " differs) — the worker & protocol support it, but cross-arch needs one worker per arch with blocks routed between them; this demo keeps a chain single-arch (that router is the host app's job — see docs/PROTOCOL.md)",
                );
                s
            },
            Status::WorkerMissing { x86 } => {
                let mut s: String = with("the ", arch_text(*x86));
                s.append(" worker isn't built — build.ps1 builds both");
                s
            },
            Status::Building { stages, x86 } => {
                let mut s: String = with("building chain of ", decimal(*stages as u128).as_str());
                s.append(" (");
                s.append(arch_text(*x86));
                s.append(") …");
                s
            },
            Status::Ready { names, delta } => {
                let mut s: String = with("chain ready: ", join(names.as_slice(), " · ").as_str());
                s.append("  (");
                s.append(delta.as_str());
                s.append(" dB vs raw)");
                s
            },
            Status::OpeningConfig(stage) => {
                let mut s: String = with("opening stage ", stage_number(*stage).as_str());
                s.append("’s config dialog — adjust + OK …");
                s
            },
            Status::Reconfigured { stage, delta } => {
                let mut s: String = with("stage ", stage_number(*stage).as_str());
                s.append(" reconfigured — chain now ");
                s.append(delta.as_str());
                s.append(" dB vs raw");
                s
            },
        }
    }
}

} // verus!
