//! Streaming a whole stereo track through the chain, block by block.
use vstd::prelude::*;

verus! {

/// How many frames a block holds at most.
pub const BLOCK_FRAMES: usize = 8192;

/// A step in processing a track.
#[derive(Debug, Clone, Copy, PartialEq, Eq)]
pub enum Step {
    /// Re-instantiate the chain, so that processing the track again gives the same.
    Reset,
    /// Send the samples from `from` to `to` through the chain, and take what comes back.
    Process { from: usize, to: usize },
    /// End of stream: take the tails that the stages hold back.
    Drain,
}

/// The frames of the block that starts at sample `i` of a track of `len` samples.
pub open spec fn frames_at(len: int, i: int) -> int {
    if (len - i) / 2 <= BLOCK_FRAMES {
        (len - i) / 2
    } else {
        BLOCK_FRAMES as int
    }
}

/// The blocks from sample `i` on: each as long as it may be, up to the last whole frame.
pub open spec fn blocks_from(len: int, i: int) -> Seq<Step>
    decreases len - i,
{
    if i < len && frames_at(len, i) > 0 {
        let next = i + 2 * frames_at(len, i);
        seq![Step::Process { from: i as usize, to: next as usize }] + blocks_from(len, next)
    } else {
        seq![]
    }
}

/// All the steps for a track of `len` samples: start afresh, send every block, take the tails.
pub open spec fn steps_for(len: int) -> Seq<Step> {
    seq![Step::Reset] + blocks_from(len, 0) + seq![Step::Drain]
}

/// The steps for a track of `len` samples.
pub fn preprocess(len: usize) -> (steps: Vec<Step>)
    ensures
        steps@ == steps_for(len as int),
{
    let mut steps: Vec<Step> = Vec::new();
    steps.push(Step::Reset);
    let mut i: usize = 0;
    assert(steps@ + blocks_from(len as int, 0) =~= seq![Step::Reset] + blocks_from(len as int, 0));
    while i < len && (len - i) / 2 > 0
        invariant
            i <= len,
            steps@ + blocks_from(len as int, i as int) == seq![Step::Reset] + blocks_from(
                len as int,
                0,
            ),
        decreases len - i,
    {
        let left: usize = (len - i) / 2;
        let frames: usize = if left <= BLOCK_FRAMES {
            left
        } else {
            BLOCK_FRAMES
        };
        let next: usize = i + frames * 2;
        let ghost before = steps@;
        steps.push(Step::Process { from: i, to: next });
        assert(before + blocks_from(len as int, i as int) =~= steps@ + blocks_from(
            len as int,
            next as int,
        ));
        i = next;
    }
    assert(steps@ + blocks_from(len as int, i as int) =~= steps@);
    steps.push(Step::Drain);
    assert(steps@ =~= steps_for(len as int));
    steps
}

/// The samples that go through the chain, in the order in which they go.
pub open spec fn streamed<T>(track: Seq<T>, steps: Seq<Step>) -> Seq<T>
    decreases steps.len(),
{
    if steps.len() == 0 {
        seq![]
    } else {
        (match steps[0] {
            Step::Process { from, to } => track.subrange(from as int, to as int),
            _ => seq![],
        }) + streamed(track, steps.drop_first())
    }
}

proof fn lemma_streamed_concat<T>(track: Seq<T>, a: Seq<Step>, b: Seq<Step>)
    ensures
        streamed(track, a + b) == streamed(track, a) + streamed(track, b),
    decreases a.len(),
{
    if a.len() == 0 {
        assert(a + b =~= b);
        assert(streamed(track, a) + streamed(track, b) =~= streamed(track, b));
    } else {
        lemma_streamed_concat(track, a.drop_first(), b);
        assert((a + b).drop_first() =~= a.drop_first() + b);
        assert(streamed(track, a + b) =~= streamed(track, a) + streamed(track, b));
    }
}

proof fn lemma_blocks<T>(track: Seq<T>, i: int)
    requires
        0 <= i <= track.len(),
        track.len() <= usize::MAX,
        i % 2 == 0,
    ensures
        streamed(track, blocks_from(track.len() as int, i)) == track.subrange(
            i,
            track.len() - track.len() % 2,
        ),
        forall|k: int|
            0 <= k < blocks_from(track.len() as int, i).len() ==> is_block(
                #[trigger] blocks_from(track.len() as int, i)[k],
            ),
    decreases track.len() - i,
{
    let len = track.len() as int;
    let blocks = blocks_from(len, i);
    if i < len && frames_at(len, i) > 0 {
        let next = i + 2 * frames_at(len, i);
        lemma_blocks(track, next);
        let first = seq![Step::Process { from: i as usize, to: next as usize }];
        let rest = blocks_from(len, next);
        assert(blocks.drop_first() =~= rest);
        assert(track.subrange(i, next) + track.subrange(next, len - len % 2) =~= track.subrange(
            i,
            len - len % 2,
        ));
        assert forall|k: int| 0 <= k < blocks.len() implies is_block(#[trigger] blocks[k]) by {
            if k > 0 {
                assert(blocks[k] == rest[k - 1]);
            }
        }
    } else {
        assert(track.subrange(i, len - len % 2) =~= seq![]);
    }
}

/// A block: at least one and at most [`BLOCK_FRAMES`] whole stereo frames.
pub open spec fn is_block(step: Step) -> bool {
    step matches Step::Process { from, to } && from < to && (to - from) % 2 == 0 && (to - from) / 2
        <= BLOCK_FRAMES
}

/// The whole track goes through the chain once, in order, up to its last whole frame; the chain
/// starts afresh before the first block and is drained after the last, and each step between is
/// a block of whole frames.
pub proof fn law_whole_track_once<T>(track: Seq<T>)
    requires
        track.len() <= usize::MAX,
    ensures
        ({
            let steps = steps_for(track.len() as int);
            &&& streamed(track, steps) == track.take(track.len() - track.len() % 2)
            &&& steps.len() >= 2
            &&& steps[0] == Step::Reset
            &&& steps.last() == Step::Drain
            &&& forall|k: int| 0 < k < steps.len() - 1 ==> is_block(#[trigger] steps[k])
        }),
{
    let len = track.len() as int;
    let blocks = blocks_from(len, 0);
    let steps = steps_for(len);
    let head = seq![Step::Reset];
    let tail = seq![Step::Drain];
    lemma_blocks(track, 0);
    lemma_streamed_concat(track, head + blocks, tail);
    lemma_streamed_concat(track, head, blocks);
    reveal_with_fuel(streamed, 2);
    assert(head.drop_first() =~= seq![]);
    assert(tail.drop_first() =~= seq![]);
    assert(streamed(track, head) =~= seq![]);
    assert(streamed(track, tail) =~= seq![]);
    assert(streamed(track, steps) =~= track.take(len - len % 2));
    assert forall|k: int| 0 < k < steps.len() - 1 implies is_block(#[trigger] steps[k]) by {
        assert(steps[k] == blocks[k - 1]);
    }
}

/// A run over a track, as values: the steps that are left, what came back so far, and why the run
/// failed, if it did.
pub struct RunView<E> {
    pub left: Seq<Step>,
    pub out: Seq<u32>,
    pub failed: Option<E>,
}

/// A run over a track of `len` samples, before its first step.
pub open spec fn run_of<E>(len: int) -> RunView<E> {
    RunView { left: steps_for(len), out: seq![], failed: None }
}

/// A run after its next step: what came back is joined to what came before; a failure ends the run
/// at once.
pub open spec fn run_after<E>(run: RunView<E>, reply: Result<Seq<u32>, E>) -> RunView<E> {
    match reply {
        Ok(audio) => RunView { left: run.left.drop_first(), out: run.out + audio, ..run },
        Err(e) => RunView { left: seq![], failed: Some(e), ..run },
    }
}

/// Whether the next step can bring this back: a reset brings back no audio.
pub open spec fn can_reply<E>(run: RunView<E>, reply: Result<Seq<u32>, E>) -> bool {
    &&& run.left.len() > 0
    &&& run.left[0] == Step::Reset && reply is Ok ==> reply->Ok_0.len() == 0
}

/// What a run comes to: all that came back, or why it failed.
pub open spec fn run_result<E>(run: RunView<E>) -> Result<Seq<u32>, E> {
    match run.failed {
        None => Ok(run.out),
        Some(e) => Err(e),
    }
}

/// A run of a whole track through the chain. Its samples are bit patterns of `f32` values.
pub struct Run<E> {
    steps: Vec<Step>,
    /// How many steps are done.
    done: usize,
    out: Vec<u32>,
    failed: Option<E>,
}

impl<E> View for Run<E> {
    type V = RunView<E>;

    closed spec fn view(&self) -> RunView<E> {
        RunView {
            left: if self.failed is None {
                self.steps@.skip(self.done as int)
            } else {
                seq![]
            },
            out: self.out@,
            failed: self.failed,
        }
    }
}

impl<E> Run<E> {
    /// What holds of a run at all times: no more steps are done than there are.
    pub closed spec fn well_formed(&self) -> bool {
        self.done <= self.steps@.len()
    }

    /// A run over a track of `len` samples, before its first step.
    pub fn new(len: usize) -> (run: Run<E>)
        ensures
            run.well_formed(),
            run@ == run_of::<E>(len as int),
    {
        let run: Run<E> = Run { steps: preprocess(len), done: 0, out: Vec::new(), failed: None };
        assert(run@.left =~= steps_for(len as int));
        assert(run@.out =~= seq![]);
        run
    }

    /// The step to take next; none where the run is over.
    pub fn next(&self) -> (step: Option<Step>)
        requires
            self.well_formed(),
        ensures
            step == (if self@.left.len() > 0 {
                Some(self@.left[0])
            } else {
                None
            }),
    {
        match &self.failed {
            None => if self.done < self.steps.len() {
                Some(self.steps[self.done])
            } else {
                None
            },
            Some(_) => None,
        }
    }

    /// The step was taken, and this came back, or why not. Gives the step to take next.
    pub fn on_done(&mut self, reply: Result<Vec<u32>, E>) -> (next: Option<Step>)
        requires
            old(self).well_formed(),
            can_reply(
                old(self)@,
                match reply {
                    Ok(audio) => Ok(audio@),
                    Err(e) => Err(e),
                },
            ),
        ensures
            final(self).well_formed(),
            final(self)@ == run_after(
                old(self)@,
                match reply {
                    Ok(audio) => Ok(audio@),
                    Err(e) => Err(e),
                },
            ),
            next == (if final(self)@.left.len() > 0 {
                Some(final(self)@.left[0])
            } else {
                None
            }),
    {
        let ghost was = self@;
        match reply {
            Ok(audio) => {
                self.out.extend_from_slice(audio.as_slice());
                let n: usize = self.steps.len();
                assert(self.done < n);
                self.done += 1;
                assert(self@.out =~= was.out + audio@);
                assert(self@.left =~= was.left.drop_first());
            },
            Err(e) => {
                self.failed = Some(e);
            },
        }
        self.next()
    }

    /// What the run came to.
    pub fn finish(self) -> (result: Result<Vec<u32>, E>)
        requires
            self@.left.len() == 0,
        ensures
            match run_result(self@) {
                Ok(out) => result matches Ok(r) && r@ == out,
                Err(e) => result == Err::<Vec<u32>, E>(e),
            },
    {
        match self.failed {
            None => Ok(self.out),
            Some(e) => Err(e),
        }
    }
}

/// A run after these replies, one for each step; none where a step cannot bring its reply back.
pub open spec fn run_over<E>(run: RunView<E>, replies: Seq<Result<Seq<u32>, E>>) -> Option<RunView<E>>
    decreases replies.len(),
{
    if replies.len() == 0 {
        Some(run)
    } else if can_reply(run, replies[0]) {
        run_over(run_after(run, replies[0]), replies.drop_first())
    } else {
        None
    }
}

/// Replies that are all successes.
pub open spec fn all_ok<E>(replies: Seq<Seq<u32>>) -> Seq<Result<Seq<u32>, E>> {
    replies.map_values(|audio: Seq<u32>| Ok::<Seq<u32>, E>(audio))
}

proof fn lemma_ok_run<E>(run: RunView<E>, replies: Seq<Seq<u32>>, more: Seq<Result<Seq<u32>, E>>)
    requires
        replies.len() <= run.left.len(),
        forall|k: int|
            0 <= k < replies.len() && run.left[k] == Step::Reset ==> (#[trigger] replies[k]).len() == 0,
    ensures
        run_over(run, all_ok::<E>(replies) + more) == run_over(
            RunView {
                left: run.left.skip(replies.len() as int),
                out: run.out + replies.flatten(),
                ..run
            },
            more,
        ),
    decreases replies.len(),
{
    let all = all_ok::<E>(replies) + more;
    let end = RunView {
        left: run.left.skip(replies.len() as int),
        out: run.out + replies.flatten(),
        ..run
    };
    if replies.len() == 0 {
        assert(all =~= more);
        assert(end.left =~= run.left);
        assert(end.out =~= run.out);
    } else {
        let rest = replies.drop_first();
        assert(all[0] == Ok::<Seq<u32>, E>(replies[0]));
        assert(all.drop_first() =~= all_ok::<E>(rest) + more);
        let next = run_after(run, all[0]);
        assert forall|k: int|
            0 <= k < rest.len() && next.left[k] == Step::Reset implies (#[trigger] rest[k]).len()
            == 0 by {
            assert(rest[k] == replies[k + 1]);
            assert(next.left[k] == run.left[k + 1]);
        }
        lemma_ok_run(next, rest, more);
        assert(next.left.skip(rest.len() as int) =~= end.left);
        assert(next.out + rest.flatten() =~= end.out);
    }
}

/// Whether these can be the replies to the first steps over a track: the reset, which comes first,
/// brings back no audio.
pub open spec fn are_replies(replies: Seq<Seq<u32>>) -> bool {
    replies.len() > 0 ==> replies[0].len() == 0
}

/// A run in which every step succeeds comes to all that the steps brought back, joined in order:
/// that of the blocks, and the tails last.
pub proof fn law_run_joins_all<E>(len: int, replies: Seq<Seq<u32>>)
    requires
        0 <= len <= usize::MAX,
        replies.len() == steps_for(len).len(),
        are_replies(replies),
    ensures
        run_over(run_of::<E>(len), all_ok::<E>(replies)) == Some(
            RunView::<E> { left: seq![], out: replies.flatten(), failed: None },
        ),
{
    let run = run_of::<E>(len);
    let none = Seq::<Result<Seq<u32>, E>>::empty();
    lemma_one_reset(len);
    lemma_ok_run(run, replies, none);
    assert(all_ok::<E>(replies) + none =~= all_ok::<E>(replies));
    assert(run.left.skip(replies.len() as int) =~= seq![]);
    assert(run.out + replies.flatten() =~= replies.flatten());
}

/// The first step that fails ends the run at once, with its error: no step is left.
pub proof fn law_first_failure_ends_the_run<E>(len: int, replies: Seq<Seq<u32>>, e: E)
    requires
        0 <= len <= usize::MAX,
        replies.len() < steps_for(len).len(),
        are_replies(replies),
    ensures
        ({
            let run = run_over(run_of::<E>(len), all_ok::<E>(replies) + seq![Err(e)]);
            run is Some && run->0.left.len() == 0 && run_result(run->0) == Err::<Seq<u32>, E>(e)
        }),
{
    let run = run_of::<E>(len);
    let more = seq![Err::<Seq<u32>, E>(e)];
    lemma_one_reset(len);
    lemma_ok_run(run, replies, more);
    let now = RunView {
        left: run.left.skip(replies.len() as int),
        out: run.out + replies.flatten(),
        ..run
    };
    assert(more.drop_first() =~= seq![]);
    assert(can_reply(now, more[0]));
    reveal_with_fuel(run_over, 2);
}

proof fn lemma_one_reset(len: int)
    requires
        0 <= len <= usize::MAX,
    ensures
        forall|k: int| 0 < k < steps_for(len).len() ==> #[trigger] steps_for(len)[k] != Step::Reset,
{
    let track = Seq::new(len as nat, |i: int| 0u8);
    law_whole_track_once(track);
    assert forall|k: int| 0 < k < steps_for(len).len() implies #[trigger] steps_for(len)[k]
        != Step::Reset by {
        if k < steps_for(len).len() - 1 {
            assert(is_block(steps_for(len)[k]));
        }
    }
}

} // verus!
