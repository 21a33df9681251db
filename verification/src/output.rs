//! What of the engine's work is heard and shown.
use vstd::prelude::*;
use crate::engine::{Publish, Turn, TurnView};
use crate::frame::{copy_texts, texts};

verus! {

/// What is heard and shown.
#[derive(Debug, Clone, PartialEq, Eq)]
pub struct Output {
    /// Whether processed audio is ready to be heard.
    pub ready: bool,
    /// Whether the source is heard, unprocessed.
    pub bypass: bool,
    /// The real names of the applied chain's stages.
    pub names: Vec<String>,
}

/// The values in an [`Output`].
pub struct OutputView {
    pub ready: bool,
    pub bypass: bool,
    pub names: Seq<Seq<char>>,
}

impl View for Output {
    type V = OutputView;

    open spec fn view(&self) -> OutputView {
        OutputView { ready: self.ready, bypass: self.bypass, names: texts(self.names@) }
    }
}

/// Nothing processed is ready: the source is heard, and no stage has a name.
pub open spec fn no_output() -> OutputView {
    OutputView { ready: false, bypass: true, names: seq![] }
}

/// What is heard and shown after a turn of the engine. Audio that was just processed is heard at
/// once; the first of a chain makes it ready.
pub open spec fn output_after(output: OutputView, turn: TurnView) -> OutputView {
    let kept = if turn.clear_output {
        no_output()
    } else {
        output
    };
    OutputView {
        ready: kept.ready || turn.publish == Publish::First,
        bypass: kept.bypass && turn.publish == Publish::Nothing,
        names: match turn.names {
            Some(names) => names,
            None => kept.names,
        },
    }
}

/// What is heard once the user has chosen (see [`crate::rack::monitor_bypass`]).
pub open spec fn output_chosen(output: OutputView, bypass: bool) -> OutputView {
    OutputView { bypass: !output.ready || bypass, ..output }
}

impl Output {
    /// What is heard and shown before there is a chain.
    pub fn new() -> (output: Output)
        ensures
            output@ == no_output(),
    {
        let output: Output = Output { ready: false, bypass: true, names: Vec::new() };
        assert(texts(output.names@) =~= seq![]);
        output
    }

    /// Takes a turn of the engine.
    pub fn take(&mut self, turn: &Turn)
        ensures
            final(self)@ == output_after(old(self)@, turn@),
    {
        if turn.clear_output {
            self.ready = false;
            self.bypass = true;
            self.names = Vec::new();
            assert(texts(self.names@) =~= seq![]);
        }
        match turn.publish {
            Publish::Nothing => {},
            Publish::Again => {
                self.bypass = false;
            },
            Publish::First => {
                self.ready = true;
                self.bypass = false;
            },
        }
        if let Some(names) = &turn.names {
            self.names = copy_texts(names);
        }
    }
}

} // verus!
