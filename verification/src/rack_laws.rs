//! What holds of any course of edits in the rack.
use vstd::prelude::*;
use crate::rack::{monitor_bypass, row_after_exchange, row_after_removal, Rack, RackView, Stage};

verus! {

/// A stage that is added and removed again leaves the stages and the open dialogs as they were.
pub proof fn law_add_then_remove(rack: RackView, stage: Stage)
    requires
        rack.well_formed(),
    ensures
        ({
            let back = rack.added(stage).removed(rack.stages.len() as int);
            &&& back.stages == rack.stages
            &&& back.asked == rack.asked
            &&& !rack.added(stage).dialog_of(rack.stages.len() as int)
        }),
{
    let n = rack.stages.len() as int;
    let added = rack.added(stage);
    assert(!added.dialog_of(n)) by {
        if added.dialog_of(n) {
            let k = rack.asked.index_of(Some(n));
            assert(rack.asked[k] == Some(n));
        }
    }
    let back = added.removed(n);
    assert(back.stages =~= rack.stages);
    assert forall|k: int| 0 <= k < rack.asked.len() implies #[trigger] back.asked[k]
        == rack.asked[k] by {
        assert(back.asked[k] == row_after_removal(rack.asked[k], n));
    }
    assert(back.asked =~= rack.asked);
}

/// Two rows that change places twice are where they were, and so are their dialogs.
pub proof fn law_up_then_down(rack: RackView, i: int)
    requires
        rack.well_formed(),
        0 <= i < rack.stages.len() - 1,
    ensures
        ({
            let back = rack.exchanged(i, i + 1).exchanged(i, i + 1);
            back.stages == rack.stages && back.asked == rack.asked
        }),
{
    let once = rack.exchanged(i, i + 1);
    let back = once.exchanged(i, i + 1);
    assert(back.stages =~= rack.stages);
    assert forall|k: int| 0 <= k < rack.asked.len() implies #[trigger] back.asked[k]
        == rack.asked[k] by {
        assert(back.asked[k] == row_after_exchange(once.asked[k], i, i + 1));
        assert(once.asked[k] == row_after_exchange(rack.asked[k], i, i + 1));
    }
    assert(back.asked =~= rack.asked);
}

/// Whether each dialog of `new` that is not dismissed belongs to the stage that it belonged to in
/// `old_rack`.
pub open spec fn same_dialogs(new: RackView, old_rack: RackView) -> bool {
    &&& new.asked.len() == old_rack.asked.len()
    &&& forall|k: int|
        0 <= k < new.asked.len() ==> (#[trigger] new.asked[k] matches Some(r) ==> {
            &&& old_rack.asked[k] is Some
            &&& 0 <= r < new.stages.len()
            &&& new.stages[r] == old_rack.stages[old_rack.asked[k]->0]
        })
}

/// A dialog stays with its stage, whichever way the rows are edited while it is open.
pub proof fn law_dialog_stays_with_its_stage(rack: RackView, stage: Stage, i: int, j: int)
    requires
        rack.well_formed(),
        0 <= i < rack.stages.len(),
        0 <= j < rack.stages.len(),
    ensures
        same_dialogs(rack.added(stage), rack),
        same_dialogs(rack.removed(i), rack),
        same_dialogs(rack.exchanged(i, j), rack),
{
    assert forall|k: int| 0 <= k < rack.asked.len() implies {
        &&& (#[trigger] rack.asked[k] matches Some(r) ==> 0 <= r < rack.stages.len())
        &&& (!rack.dialog_of(i) ==> rack.asked[k] != Some(i))
    } by {
        assert(rack.asked[k] == Some(i) ==> rack.asked.contains(Some(i)));
    }
    let removed = rack.removed(i);
    assert forall|k: int| 0 <= k < removed.asked.len() implies (#[trigger] removed.asked[k] matches Some(
        r,
    ) ==> {
        &&& rack.asked[k] is Some
        &&& 0 <= r < removed.stages.len()
        &&& removed.stages[r] == rack.stages[rack.asked[k]->0]
    }) by {
        if !rack.dialog_of(i) {
            assert(removed.asked[k] == row_after_removal(rack.asked[k], i));
        }
    }
    let exchanged = rack.exchanged(i, j);
    assert forall|k: int| 0 <= k < exchanged.asked.len() implies (
    #[trigger] exchanged.asked[k] matches Some(r) ==> {
        &&& rack.asked[k] is Some
        &&& 0 <= r < exchanged.stages.len()
        &&& exchanged.stages[r] == rack.stages[rack.asked[k]->0]
    }) by {
        assert(exchanged.asked[k] == row_after_exchange(rack.asked[k], i, j));
    }
}

/// No stuck dialog: once a chain is applied, no dialog of the chain before it is open, and the
/// rack is no longer marked as edited.
pub proof fn law_apply_leaves_no_dialog(rack: RackView)
    ensures
        !rack.applied().any_dialog(),
        rack.applied().stages == rack.stages,
        !rack.applied().dirty,
{
}

/// No stale chain: two stages are applied, the dialog of the second is open, and meanwhile a third
/// is added and the first two are removed. Removing the one whose dialog is open dismisses it, and
/// what is applied then is the third alone.
pub proof fn law_dialog_never_outlives_its_chain(x: Stage, y: Stage, z: Stage)
    ensures
        ({
            let start = RackView { stages: seq![x, y], dirty: false, asked: seq![] };
            let edited = start.asking(1).added(z).removed(0);
            let last = edited.removed(0);
            &&& edited.dialog_of(0)
            &&& edited.stages[0] == y
            &&& !last.any_dialog()
            &&& last.dirty
            &&& last.applied().components() == seq![z.component]
        }),
{
    let start = RackView { stages: seq![x, y], dirty: false, asked: seq![] };
    let asking = start.asking(1);
    assert(asking.asked =~= seq![Some(1int)]);
    let added = asking.added(z);
    assert(added.stages =~= seq![x, y, z]);
    assert(!added.dialog_of(0));
    let edited = added.removed(0);
    assert(edited.stages =~= seq![y, z]);
    assert(edited.asked[0] == row_after_removal(added.asked[0], 0));
    assert(edited.asked =~= seq![Some(0int)]);
    assert(edited.asked[0] == Some(0int));
    let last = edited.removed(0);
    assert(last.stages =~= seq![z]);
    assert(last.applied().components() =~= seq![z.component]);
}

/// Whether two rows have changed places, and every other row is as it was.
pub open spec fn changed_places(was: Seq<Stage>, now: Seq<Stage>, i: int, j: int) -> bool {
    &&& now.len() == was.len()
    &&& now[i] == was[j]
    &&& now[j] == was[i]
    &&& forall|k: int| 0 <= k < was.len() && k != i && k != j ==> #[trigger] now[k] == was[k]
}

/// Whether the dialogs that were asked for went along with their stages when two rows changed places.
pub open spec fn dialogs_changed_places(
    was: Seq<Option<int>>,
    now: Seq<Option<int>>,
    i: int,
    j: int,
) -> bool {
    &&& now.len() == was.len()
    &&& forall|k: int|
        0 <= k < was.len() ==> {
            &&& (#[trigger] now[k]) == Some(j) <==> was[k] == Some(i)
            &&& now[k] == Some(i) <==> was[k] == Some(j)
            &&& was[k] != Some(i) && was[k] != Some(j) ==> now[k] == was[k]
        }
}

/// Whichever two rows are exchanged, with or without dialogs: each stands where the other stood, its
/// dialogs went along, and all other rows and dialogs are as they were.
pub proof fn law_rows_are_exchanged(rack: RackView, i: int, j: int)
    requires
        0 <= i < rack.stages.len(),
        0 <= j < rack.stages.len(),
    ensures
        changed_places(rack.stages, rack.exchanged(i, j).stages, i, j),
        dialogs_changed_places(rack.asked, rack.exchanged(i, j).asked, i, j),
        rack.exchanged(i, j).dirty,
{
}

/// Moving a stage up makes it change places with the one above it, with or without dialogs; moving
/// it down, with the one below. The first does not move up and the last not down.
pub proof fn law_stages_are_moved(up: &mut Rack, down: &mut Rack, i: usize)
    requires
        call_ensures(Rack::move_up, (up, i), ()),
        call_ensures(Rack::move_down, (down, i), ()),
        i < old(up)@.stages.len(),
        i < old(down)@.stages.len(),
    ensures
        i > 0 ==> {
            &&& changed_places(old(up)@.stages, final(up)@.stages, i - 1, i as int)
            &&& dialogs_changed_places(old(up)@.asked, final(up)@.asked, i - 1, i as int)
            &&& final(up)@.dirty
        },
        i == 0 ==> final(up)@ == old(up)@,
        i + 1 < old(down)@.stages.len() ==> {
            &&& changed_places(old(down)@.stages, final(down)@.stages, i as int, i + 1)
            &&& dialogs_changed_places(old(down)@.asked, final(down)@.asked, i as int, i + 1)
            &&& final(down)@.dirty
        },
        i + 1 == old(down)@.stages.len() ==> final(down)@ == old(down)@,
{
}

/// A stage is added at the end, below all that were there.
pub proof fn law_stage_is_added(rack: &mut Rack, component: usize, label: String)
    requires
        call_ensures(Rack::add_stage, (rack, component, label), ()),
    ensures
        final(rack)@.stages.len() == old(rack)@.stages.len() + 1,
        forall|k: int|
            0 <= k < old(rack)@.stages.len() ==> #[trigger] final(rack)@.stages[k] == old(
                rack,
            )@.stages[k],
        final(rack)@.stages.last().component == component,
        final(rack)@.stages.last().label == label,
        final(rack)@.dirty,
        final(rack)@.asked == old(rack)@.asked,
{
}

/// Removing a stage leaves those above it where they are and moves those below it up. The worker is
/// killed exactly if a dialog of that stage is open, and then no dialog is; otherwise each dialog
/// goes along with its stage.
pub proof fn law_stage_is_removed(rack: &mut Rack, i: usize, kill: bool)
    requires
        call_ensures(Rack::remove_stage, (rack, i), kill),
        i < old(rack)@.stages.len(),
    ensures
        final(rack)@.stages.len() == old(rack)@.stages.len() - 1,
        forall|k: int|
            0 <= k < final(rack)@.stages.len() ==> #[trigger] final(rack)@.stages[k] == old(
                rack,
            )@.stages[if k < i {
                k
            } else {
                k + 1
            }],
        final(rack)@.dirty,
        final(rack)@.asked.len() == old(rack)@.asked.len(),
        kill <==> exists|k: int|
            0 <= k < old(rack)@.asked.len() && #[trigger] old(rack)@.asked[k] == Some(i as int),
        forall|k: int|
            0 <= k < old(rack)@.asked.len() ==> (#[trigger] final(rack)@.asked[k]) == (match old(
                rack,
            )@.asked[k] {
                Some(r) => if kill {
                    None
                } else if r > i {
                    Some(r - 1)
                } else {
                    Some(r)
                },
                None => None,
            }),
{
    let was = old(rack)@;
    assert(was.asked.contains(Some(i as int)) <==> exists|k: int|
        0 <= k < was.asked.len() && #[trigger] was.asked[k] == Some(i as int));
}

/// A dialog is asked for exactly where the rack shows the chain that is heard, and it is that of the
/// row that was clicked.
pub proof fn law_dialog_is_asked_for(rack: &mut Rack, i: usize, ready: bool, stage: Option<usize>)
    requires
        call_ensures(Rack::configure, (rack, i, ready), stage),
    ensures
        final(rack)@.stages == old(rack)@.stages,
        final(rack)@.dirty == old(rack)@.dirty,
        if ready && !old(rack)@.dirty && i < old(rack)@.stages.len() {
            &&& stage == Some(i)
            &&& final(rack)@.asked.len() == old(rack)@.asked.len() + 1
            &&& final(rack)@.asked.last() == Some(i as int)
            &&& forall|k: int|
                0 <= k < old(rack)@.asked.len() ==> #[trigger] final(rack)@.asked[k] == old(
                    rack,
                )@.asked[k]
        } else {
            stage is None && final(rack)@.asked == old(rack)@.asked
        },
{
}

/// Dialogs end in the order in which they were asked for.
pub proof fn law_dialog_has_ended(rack: &mut Rack)
    requires
        call_ensures(Rack::dialog_ended, (rack,), ()),
    ensures
        final(rack)@.stages == old(rack)@.stages,
        final(rack)@.dirty == old(rack)@.dirty,
        old(rack)@.asked.len() == 0 ==> final(rack)@.asked.len() == 0,
        old(rack)@.asked.len() > 0 ==> {
            &&& final(rack)@.asked.len() == old(rack)@.asked.len() - 1
            &&& forall|k: int|
                0 <= k < final(rack)@.asked.len() ==> #[trigger] final(rack)@.asked[k] == old(
                    rack,
                )@.asked[k + 1]
        },
{
}

/// The chain that is applied is that of the rack: each row's component, from top to bottom. The
/// worker is killed exactly if a dialog is open.
pub proof fn law_chain_is_that_of_the_rack(rack: &mut Rack, r: (Vec<usize>, bool))
    requires
        call_ensures(Rack::apply, (rack,), r),
    ensures
        r.0@.len() == old(rack)@.stages.len(),
        forall|k: int|
            0 <= k < r.0@.len() ==> #[trigger] r.0@[k] == old(rack)@.stages[k].component,
        r.1 <==> exists|k: int|
            0 <= k < old(rack)@.asked.len() && #[trigger] old(rack)@.asked[k] is Some,
        final(rack)@.stages == old(rack)@.stages,
        !final(rack)@.dirty,
        final(rack)@.asked.len() == old(rack)@.asked.len(),
        forall|k: int|
            0 <= k < final(rack)@.asked.len() ==> #[trigger] final(rack)@.asked[k] is None,
{
}

/// What the rack tells of itself.
pub proof fn law_rack_tells(
    rack: &Rack,
    ready: bool,
    i: usize,
    names: &[String],
    n: usize,
    dirty: bool,
    live: bool,
    can: bool,
    label: String,
)
    requires
        call_ensures(Rack::len, (rack,), n),
        call_ensures(Rack::is_dirty, (rack,), dirty),
        call_ensures(Rack::is_live, (rack, ready), live),
        call_ensures(Rack::can_apply, (rack,), can),
        call_ensures(Rack::label, (rack, i, ready, names), label),
    ensures
        n == rack@.stages.len(),
        dirty == rack@.dirty,
        live <==> ready && !rack@.dirty,
        can <==> rack@.stages.len() >= 1,
        ready && !rack@.dirty && i < names@.len() ==> label@ == names@[i as int]@,
        !ready || rack@.dirty || i >= names@.len() ==> label@ == rack@.stages[i as int].label@,
{
}

/// Until a chain is ready the source is heard; from then on what was chosen.
pub proof fn law_monitor(ready: bool, chosen: bool, bypass: bool)
    requires
        call_ensures(monitor_bypass, (ready, chosen), bypass),
    ensures
        !ready ==> bypass,
        ready ==> bypass == chosen,
{
}

/// A new rack is empty.
pub proof fn law_new_rack(rack: Rack)
    requires
        call_ensures(Rack::new, (), rack),
    ensures
        rack@.stages.len() == 0,
        !rack@.dirty,
        rack@.asked.len() == 0,
{
}

} // verus!
