//! The rack: the chain as it is being edited, before and after it is applied.
//!
//! A stage names its component by the component's place in the list of components.
use vstd::prelude::*;

verus! {

/// A stage in the rack.
#[derive(Debug, Clone, PartialEq, Eq)]
pub struct Stage {
    /// The place of its component in the list of components.
    pub component: usize,
    /// What it is called until its chain is applied.
    pub label: String,
}

/// The values in a [`Rack`].
pub struct RackView {
    pub stages: Seq<Stage>,
    /// Whether the stages were edited since they were last applied.
    pub dirty: bool,
    /// The rows whose dialogs were asked for and have not come to an end, the oldest first; none
    /// for a dialog that was dismissed.
    pub asked: Seq<Option<int>>,
}

/// Where a row is after row `i` is removed.
pub open spec fn row_after_removal(row: Option<int>, i: int) -> Option<int> {
    match row {
        Some(r) if r > i => Some(r - 1),
        _ => row,
    }
}

/// Where a row is after rows `i` and `j` change places.
pub open spec fn row_after_exchange(row: Option<int>, i: int, j: int) -> Option<int> {
    match row {
        Some(r) if r == i => Some(j),
        Some(r) if r == j => Some(i),
        _ => row,
    }
}

impl RackView {
    /// A dialog that was asked for belongs to a stage in the rack.
    pub open spec fn well_formed(self) -> bool {
        forall|k: int|
            0 <= k < self.asked.len() ==> (#[trigger] self.asked[k] matches Some(r) ==> 0 <= r
                < self.stages.len())
    }

    /// Whether the rack shows the chain that is applied, where one is ready to be heard.
    pub open spec fn live(self, ready: bool) -> bool {
        ready && !self.dirty
    }

    /// Whether a dialog that was asked for has not come to an end.
    pub open spec fn any_dialog(self) -> bool {
        exists|k: int| 0 <= k < self.asked.len() && self.asked[k] is Some
    }

    /// Whether a dialog of this row was asked for and has not come to an end.
    pub open spec fn dialog_of(self, i: int) -> bool {
        self.asked.contains(Some(i))
    }

    /// The dialogs that were asked for, all dismissed.
    pub open spec fn dismissed(self) -> Seq<Option<int>> {
        self.asked.map_values(|row: Option<int>| None::<int>)
    }

    /// The rack with a stage more.
    pub open spec fn added(self, stage: Stage) -> RackView {
        RackView { stages: self.stages.push(stage), dirty: true, ..self }
    }

    /// The rack without the stage at row `i`, whose dialog, if open, is dismissed: the worker that
    /// shows it is killed, so all others that were asked for are dismissed too.
    pub open spec fn removed(self, i: int) -> RackView {
        RackView {
            stages: self.stages.remove(i),
            dirty: true,
            asked: if self.dialog_of(i) {
                self.dismissed()
            } else {
                self.asked.map_values(|row: Option<int>| row_after_removal(row, i))
            },
        }
    }

    /// The rack with two rows in each other's place.
    pub open spec fn exchanged(self, i: int, j: int) -> RackView {
        RackView {
            stages: self.stages.update(i, self.stages[j]).update(j, self.stages[i]),
            dirty: true,
            asked: self.asked.map_values(|row: Option<int>| row_after_exchange(row, i, j)),
        }
    }

    /// The rack once its chain is applied: the old chain's dialogs are dismissed.
    pub open spec fn applied(self) -> RackView {
        RackView { dirty: false, asked: self.dismissed(), ..self }
    }

    /// The rack once the dialog of row `i` is asked for.
    pub open spec fn asking(self, i: int) -> RackView {
        RackView { asked: self.asked.push(Some(i)), ..self }
    }

    /// The components of the stages, in order.
    pub open spec fn components(self) -> Seq<usize> {
        self.stages.map_values(|stage: Stage| stage.component)
    }
}

/// The rack's state.
pub struct Rack {
    stages: Vec<Stage>,
    dirty: bool,
    asked: Vec<Option<usize>>,
}

/// Rows as mathematical integers.
pub open spec fn rows(asked: Seq<Option<usize>>) -> Seq<Option<int>> {
    asked.map_values(
        |row: Option<usize>|
            match row {
                Some(r) => Some(r as int),
                None => None::<int>,
            },
    )
}

impl View for Rack {
    type V = RackView;

    closed spec fn view(&self) -> RackView {
        RackView { stages: self.stages@, dirty: self.dirty, asked: rows(self.asked@) }
    }
}

impl Rack {
    /// An empty rack.
    pub fn new() -> (rack: Rack)
        ensures
            rack@ == (RackView { stages: seq![], dirty: false, asked: seq![] }),
            rack@.well_formed(),
    {
        let rack: Rack = Rack { stages: Vec::new(), dirty: false, asked: Vec::new() };
        assert(rows(rack.asked@) =~= seq![]);
        rack
    }

    /// The number of stages.
    pub fn len(&self) -> (n: usize)
        ensures
            n == self@.stages.len(),
    {
        self.stages.len()
    }

    /// Whether the stages were edited since they were last applied.
    pub fn is_dirty(&self) -> (dirty: bool)
        ensures
            dirty == self@.dirty,
    {
        self.dirty
    }

    /// Whether a stage's dialog can be asked for: not while the rack shows another chain than the
    /// one that is heard.
    pub fn is_live(&self, ready: bool) -> (live: bool)
        ensures
            live == self@.live(ready),
    {
        ready && !self.dirty
    }

    /// What to call the stage at row `i`: its real name where its chain is applied, or else what
    /// it was called when it was added.
    pub fn label(&self, i: usize, ready: bool, live_names: &[String]) -> (label: String)
        requires
            i < self@.stages.len(),
        ensures
            label@ == (if self@.live(ready) && i < live_names@.len() {
                live_names@[i as int]@
            } else {
                self@.stages[i as int].label@
            }),
    {
        if self.is_live(ready) && i < live_names.len() {
            live_names[i].clone()
        } else {
            self.stages[i].label.clone()
        }
    }

    /// Adds a stage at the end.
    pub fn add_stage(&mut self, component: usize, label: String)
        requires
            old(self)@.well_formed(),
        ensures
            final(self)@ == old(self)@.added(Stage { component, label }),
            final(self)@.well_formed(),
    {
        self.stages.push(Stage { component, label });
        self.dirty = true;
    }

    fn asked_for(&self, i: usize) -> (found: bool)
        ensures
            found == self@.dialog_of(i as int),
    {
        let ghost all = rows(self.asked@);
        let mut k: usize = 0;
        while k < self.asked.len()
            invariant
                k <= self.asked@.len(),
                all == rows(self.asked@),
                forall|m: int| 0 <= m < k ==> #[trigger] all[m] != Some(i as int),
            decreases self.asked@.len() - k,
        {
            if let Some(r) = self.asked[k] {
                if r == i {
                    assert(all[k as int] == Some(i as int));
                    return true;
                }
            }
            k += 1;
        }
        false
    }

    fn any_asked(&self) -> (found: bool)
        ensures
            found == self@.any_dialog(),
    {
        let ghost all = rows(self.asked@);
        let mut k: usize = 0;
        while k < self.asked.len()
            invariant
                k <= self.asked@.len(),
                all == rows(self.asked@),
                forall|m: int| 0 <= m < k ==> #[trigger] all[m] is None,
            decreases self.asked@.len() - k,
        {
            if let Some(r) = self.asked[k] {
                assert(all[k as int] == Some(r as int));
                return true;
            }
            k += 1;
        }
        false
    }

    fn dismiss(&mut self)
        ensures
            final(self)@ == (RackView { asked: old(self)@.dismissed(), ..old(self)@ }),
    {
        let n: usize = self.asked.len();
        let mut asked: Vec<Option<usize>> = Vec::new();
        let mut k: usize = 0;
        while k < n
            invariant
                k <= n,
                asked@.len() == k,
                forall|m: int| 0 <= m < k ==> #[trigger] asked@[m] is None,
            decreases n - k,
        {
            asked.push(None);
            k += 1;
        }
        assert(rows(asked@) =~= self@.dismissed());
        self.asked = asked;
    }

    /// Removes the stage at row `i`. Says whether that takes a dialog's stage away: terminating
    /// the worker is then the only way to dismiss it.
    pub fn remove_stage(&mut self, i: usize) -> (kill: bool)
        requires
            old(self)@.well_formed(),
            i < old(self)@.stages.len(),
        ensures
            kill == old(self)@.dialog_of(i as int),
            final(self)@ == old(self)@.removed(i as int),
            final(self)@.well_formed(),
    {
        let ghost was = self@;
        let kill: bool = self.asked_for(i);
        if kill {
            self.dismiss();
        } else {
            let mut asked: Vec<Option<usize>> = Vec::new();
            let mut k: usize = 0;
            while k < self.asked.len()
                invariant
                    k <= self.asked@.len(),
                    was == self@,
                    was.well_formed(),
                    !was.dialog_of(i as int),
                    asked@.len() == k,
                    forall|m: int|
                        0 <= m < k ==> #[trigger] rows(asked@)[m] == row_after_removal(
                            was.asked[m],
                            i as int,
                        ),
                decreases self.asked@.len() - k,
            {
                let row: Option<usize> = self.asked[k];
                let ghost before = asked@;
                assert(was.asked[k as int] == rows(self.asked@)[k as int]);
                asked.push(
                    match row {
                        Some(r) if r > i => Some(r - 1),
                        _ => row,
                    },
                );
                assert(rows(asked@).take(k as int) =~= rows(before));
                assert forall|m: int| 0 <= m < k + 1 implies #[trigger] rows(asked@)[m]
                    == row_after_removal(was.asked[m], i as int) by {
                    if m < k {
                        assert(rows(before)[m] == rows(asked@)[m]);
                    }
                }
                k += 1;
            }
            assert(rows(asked@) =~= was.removed(i as int).asked);
            self.asked = asked;
        }
        self.stages.remove(i);
        self.dirty = true;
        assert forall|k: int| 0 <= k < self@.asked.len() implies (#[trigger] self@.asked[k] matches Some(
            r,
        ) ==> 0 <= r < self@.stages.len()) by {
            assert(was.asked[k] matches Some(r) ==> 0 <= r < was.stages.len());
            assert(was.asked[k] == Some(i as int) ==> was.dialog_of(i as int));
        }
        kill
    }

    fn exchange(&mut self, i: usize, j: usize)
        requires
            old(self)@.well_formed(),
            i < j < old(self)@.stages.len(),
        ensures
            final(self)@ == old(self)@.exchanged(i as int, j as int),
            final(self)@.well_formed(),
    {
        let ghost was = self@;
        let mut asked: Vec<Option<usize>> = Vec::new();
        let mut k: usize = 0;
        while k < self.asked.len()
            invariant
                k <= self.asked@.len(),
                was == self@,
                asked@.len() == k,
                forall|m: int|
                    0 <= m < k ==> #[trigger] rows(asked@)[m] == row_after_exchange(
                        was.asked[m],
                        i as int,
                        j as int,
                    ),
            decreases self.asked@.len() - k,
        {
            let row: Option<usize> = self.asked[k];
            let ghost before = asked@;
            assert(was.asked[k as int] == rows(self.asked@)[k as int]);
            asked.push(
                match row {
                    Some(r) if r == i => Some(j),
                    Some(r) if r == j => Some(i),
                    _ => row,
                },
            );
            assert forall|m: int| 0 <= m < k + 1 implies #[trigger] rows(asked@)[m]
                == row_after_exchange(was.asked[m], i as int, j as int) by {
                if m < k {
                    assert(rows(before)[m] == rows(asked@)[m]);
                }
            }
            k += 1;
        }
        self.asked = asked;
        let lower: Stage = self.stages.remove(j);
        let upper: Stage = self.stages.remove(i);
        self.stages.insert(i, lower);
        self.stages.insert(j, upper);
        self.dirty = true;
        assert(self@.stages =~= was.exchanged(i as int, j as int).stages);
        assert(self@.asked =~= was.exchanged(i as int, j as int).asked);
        assert forall|k: int| 0 <= k < self@.asked.len() implies (#[trigger] self@.asked[k] matches Some(
            r,
        ) ==> 0 <= r < self@.stages.len()) by {
            assert(was.asked[k] matches Some(r) ==> 0 <= r < was.stages.len());
        }
    }

    /// Moves the stage at row `i` a row up. The first one stays.
    pub fn move_up(&mut self, i: usize)
        requires
            old(self)@.well_formed(),
            i < old(self)@.stages.len(),
        ensures
            final(self)@ == (if i > 0 {
                old(self)@.exchanged(i - 1, i as int)
            } else {
                old(self)@
            }),
            final(self)@.well_formed(),
    {
        if i > 0 {
            self.exchange(i - 1, i);
        }
    }

    /// Moves the stage at row `i` a row down. The last one stays.
    pub fn move_down(&mut self, i: usize)
        requires
            old(self)@.well_formed(),
            i < old(self)@.stages.len(),
        ensures
            final(self)@ == (if i + 1 < old(self)@.stages.len() {
                old(self)@.exchanged(i as int, i + 1)
            } else {
                old(self)@
            }),
            final(self)@.well_formed(),
    {
        if i < self.stages.len() - 1 {
            self.exchange(i, i + 1);
        }
    }

    /// Asks for the dialog of the stage at row `i`, where the rack shows the applied chain. Gives
    /// the stage's number in that chain.
    pub fn configure(&mut self, i: usize, ready: bool) -> (stage: Option<usize>)
        requires
            old(self)@.well_formed(),
        ensures
            final(self)@.well_formed(),
            if old(self)@.live(ready) && i < old(self)@.stages.len() {
                stage == Some(i) && final(self)@ == old(self)@.asking(i as int)
            } else {
                stage is None && final(self)@ == old(self)@
            },
    {
        if !self.is_live(ready) || i >= self.stages.len() {
            return None;
        }
        let ghost was = self@;
        self.asked.push(Some(i));
        assert(self@.asked =~= was.asked.push(Some(i as int)));
        Some(i)
    }

    /// The oldest dialog that was asked for has come to an end.
    pub fn dialog_ended(&mut self)
        requires
            old(self)@.well_formed(),
        ensures
            final(self)@ == (RackView {
                asked: if old(self)@.asked.len() == 0 {
                    seq![]
                } else {
                    old(self)@.asked.drop_first()
                },
                ..old(self)@
            }),
            final(self)@.well_formed(),
    {
        let ghost was = self@;
        if self.asked.len() > 0 {
            self.asked.remove(0);
            assert(self@.asked =~= was.asked.drop_first());
            assert forall|k: int| 0 <= k < self@.asked.len() implies (
            #[trigger] self@.asked[k] matches Some(r) ==> 0 <= r < self@.stages.len()) by {
                assert(was.asked[k + 1] matches Some(r) ==> 0 <= r < was.stages.len());
            }
        } else {
            assert(self@.asked =~= seq![]);
        }
    }

    /// Whether there is a chain to apply.
    pub fn can_apply(&self) -> (can: bool)
        ensures
            can == (self@.stages.len() > 0),
    {
        self.stages.len() > 0
    }

    /// Applies the chain: gives the components of its stages, in order, and says whether a dialog
    /// of the old chain is in the way, which only terminating the worker dismisses.
    pub fn apply(&mut self) -> (chain: (Vec<usize>, bool))
        requires
            old(self)@.well_formed(),
        ensures
            chain.0@ == old(self)@.components(),
            chain.1 == old(self)@.any_dialog(),
            final(self)@ == old(self)@.applied(),
            final(self)@.well_formed(),
    {
        let kill: bool = self.any_asked();
        let mut chain: Vec<usize> = Vec::new();
        let mut i: usize = 0;
        while i < self.stages.len()
            invariant
                i <= self.stages@.len(),
                chain@ == self@.components().take(i as int),
            decreases self.stages@.len() - i,
        {
            chain.push(self.stages[i].component);
            assert(chain@ =~= self@.components().take(i + 1));
            i += 1;
        }
        assert(chain@ =~= self@.components());
        self.dismiss();
        self.dirty = false;
        (chain, kill)
    }
}

/// Whether the source is heard, unprocessed: always until the chain is ready, and from then on as
/// chosen.
pub fn monitor_bypass(ready: bool, chosen: bool) -> (bypass: bool)
    ensures
        bypass == (!ready || chosen),
{
    if !ready {
        true
    } else {
        chosen
    }
}

} // verus!
