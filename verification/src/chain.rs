//! The chain that the lab builds: each component's first entry with the preset kept for it.
use vstd::prelude::*;
use crate::error::Error;
use crate::frame::texts;
use crate::protocol::{stage_views, stages_fit, Awaiting, Request, StageSpec, StageView};
use crate::worker::{sent, Worker};

verus! {

/// The lab's audio is stereo.
pub const CHANNELS: u32 = 2;

/// The stages of a chain: the first entry of each component, with its preset; an empty preset
/// stands for the entry's default.
pub open spec fn chain_stages(paths: Seq<Seq<char>>, presets: Seq<Seq<u8>>) -> Seq<StageView> {
    Seq::new(
        paths.len(),
        |i: int| StageView { dll: paths[i], entry_index: 0, preset: presets[i] },
    )
}

/// The bytes of each blob.
pub open spec fn blobs(presets: Seq<Vec<u8>>) -> Seq<Seq<u8>> {
    presets.map_values(|preset: Vec<u8>| preset@)
}

/// The stages of a chain of the components at these paths, with these presets.
pub fn stage_specs(paths: &[String], presets: &[Vec<u8>]) -> (stages: Vec<StageSpec>)
    requires
        paths@.len() == presets@.len(),
    ensures
        stage_views(stages@) == chain_stages(texts(paths@), blobs(presets@)),
        stages@.len() == paths@.len(),
{
    let mut stages: Vec<StageSpec> = Vec::new();
    let mut i: usize = 0;
    while i < paths.len()
        invariant
            i <= paths@.len(),
            paths@.len() == presets@.len(),
            stages@.len() == i,
            forall|k: int|
                0 <= k < i ==> (#[trigger] stages@[k])@ == (StageView {
                    dll: paths@[k]@,
                    entry_index: 0,
                    preset: presets@[k]@,
                }),
        decreases paths@.len() - i,
    {
        let mut preset: Vec<u8> = Vec::new();
        preset.extend_from_slice(presets[i].as_slice());
        assert(preset@ =~= presets@[i as int]@);
        let mut stage: StageSpec = StageSpec::new(paths[i].as_str());
        stage.preset = preset;
        stages.push(stage);
        i += 1;
    }
    assert(stage_views(stages@) =~= chain_stages(texts(paths@), blobs(presets@)));
    stages
}

/// Asks a worker for the chain of the components at these paths, with these presets, for stereo at
/// this rate.
pub fn ask_for_chain(worker: &mut Worker, rate: u32, paths: &[String], presets: &[Vec<u8>]) -> (r:
    Result<Vec<u8>, Error>)
    requires
        old(worker)@.idle(),
        paths@.len() == presets@.len(),
    ensures
        final(worker)@.well_formed(),
        final(worker).peer_view() == old(worker).peer_view(),
        ({
            let stages = chain_stages(texts(paths@), blobs(presets@));
            sent(
                old(worker)@,
                final(worker)@,
                stages_fit(stages),
                Request::Chain { sample_rate: rate, channels: 2, stages },
                Awaiting::Chain { channels: 2 },
                r,
            )
        }),
{
    let stages: Vec<StageSpec> = stage_specs(paths, presets);
    worker.build_chain(rate, CHANNELS, stages.as_slice())
}

} // verus!
