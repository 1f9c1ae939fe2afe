//! What a backup and a restore of one path achieve in the ideal world, and
//! that the one undoes the other.

use vstd::prelude::*;
use crate::apppath::parent_of;
use crate::batch::{lemma_backup_one, path_ready};
use crate::handler::{
    HandlerView, Job, Phase, VolumeStage, assigned, entered, handler_next, located,
};
use crate::model::{World, exists_at, run, world_reply};
use crate::state::{distinct, lemma_with_entry, lemma_without_entry, with_entry, without_entry};
use crate::step::{ActionView, EventView, FailureKind, OutcomeView, stop_before};
use crate::subcmd::Stage;

verus! {

/// The engine about to start a backup of the single path `p`, with the
/// first action.
pub open spec fn backup_of(h: HandlerView, p: Seq<char>) -> (HandlerView, ActionView) {
    handler_next(
        assigned(h, Job::Backup, seq![p], Phase::Mounting(VolumeStage::Begin)),
        EventView::Start,
    )
}

/// The engine about to start a restore of the single path `p`, with the
/// first action.
pub open spec fn restore_of(h: HandlerView, p: Seq<char>) -> (HandlerView, ActionView) {
    entered(assigned(h, Job::Restore, seq![p], Phase::Idle), 0)
}

/// The engine about to start a full restore of the single path `p`, with
/// the first action.
pub open spec fn restore_all_of(h: HandlerView, p: Seq<char>) -> (HandlerView, ActionView) {
    entered(assigned(h, Job::RestoreAll, seq![p], Phase::Idle), 0)
}

/// A backup of an existing path that is no link completes. It leaves the
/// volume mounted, the content at the path's place on the volume, a link to
/// that place where the content was, and the path in the record; where the
/// record changed, the state file holds it.
pub proof fn lemma_backup_relocates(
    h: HandlerView,
    w: World,
    p: Seq<char>,
    original: Seq<char>,
    place: Seq<char>,
)
    requires
        located(assigned(h, Job::Backup, seq![p], Phase::Idle), 0) == Some((original, place)),
        parent_of(place) is Some,
        place != original,
        w.real.contains_key(original),
        !w.links.contains_key(original),
    ensures
        ({
            let (h1, a1) = backup_of(h, p);
            let (h2, w2, a2) = run(h1, w, a1, 10);
            &&& a2 == ActionView::Finish(OutcomeView::Completed)
            &&& h2 == HandlerView {
                state: with_entry(h.state, original),
                index: 1,
                ..assigned(h, Job::Backup, seq![p], Phase::Idle)
            }
            &&& h2.state.contains(original)
            &&& w2.volumes.contains(h.name)
            &&& w2.real == w.real.remove(original).insert(place, w.real[original])
            &&& w2.links == w.links.insert(original, place)
            &&& w2.saved == if h.state.contains(original) {
                w.saved
            } else {
                Some(h2.state)
            }
        }),
{
    let h0 = assigned(h, Job::Backup, seq![p], Phase::Mounting(VolumeStage::Begin));
    let hm = HandlerView { phase: Phase::Moving(Stage::Exists), ..h0 };
    assert(located(h0, 0) == located(assigned(h, Job::Backup, seq![p], Phase::Idle), 0));
    assert(located(hm, 0) == located(h0, 0));
    lemma_with_entry(h.state, original);
    let (h1, a1) = backup_of(h, p);
    let first = ActionView::PathExists { path: original };
    let wm = if w.volumes.contains(h.name) {
        w
    } else {
        World {
            volumes: w.volumes.insert(h.name),
            attached: w.attached + 1,
            erased: w.erased + 1,
            ..w
        }
    };
    let left: nat = if w.volumes.contains(h.name) {
        9
    } else {
        7
    };
    assert(path_ready(hm, wm, 0));
    lemma_backup_one(hm, wm, left);
    assert(run(h1, w, a1, 10) == run(hm, wm, first, left)) by {
        reveal_with_fuel(run, 4);
    }
    reveal_with_fuel(run, 2);
}

/// A backup of a path that does not exist ends as `NotExist`, and one of a
/// path that is a link already as `AlreadySymlink`. Either way the record,
/// the state file, the content and the links stay as they were.
pub proof fn lemma_backup_refused(
    h: HandlerView,
    w: World,
    p: Seq<char>,
    original: Seq<char>,
    place: Seq<char>,
)
    requires
        located(assigned(h, Job::Backup, seq![p], Phase::Idle), 0) == Some((original, place)),
        !exists_at(w, original) || w.links.contains_key(original),
    ensures
        ({
            let (h1, a1) = backup_of(h, p);
            let (h2, w2, a2) = run(h1, w, a1, 10);
            &&& a2 == if exists_at(w, original) {
                stop_before(FailureKind::AlreadySymlink, original)
            } else {
                stop_before(FailureKind::NotExist, original)
            }
            &&& h2.state == h.state
            &&& h2.phase == Phase::Idle
            &&& w2.real == w.real
            &&& w2.links == w.links
            &&& w2.saved == w.saved
        }),
{
    let h0 = assigned(h, Job::Backup, seq![p], Phase::Mounting(VolumeStage::Begin));
    assert(located(h0, 0) == located(assigned(h, Job::Backup, seq![p], Phase::Idle), 0));
    reveal_with_fuel(run, 6);
}

/// A restore of a relocated path completes. It takes the link away, puts
/// the content back where the link was, and strikes the path from the
/// record; where the record changed, the state file holds it.
pub proof fn lemma_restore_returns(
    h: HandlerView,
    w: World,
    p: Seq<char>,
    original: Seq<char>,
    place: Seq<char>,
)
    requires
        located(assigned(h, Job::Restore, seq![p], Phase::Idle), 0) == Some((original, place)),
        place != original,
        w.links.contains_key(original),
        w.links[original] == place,
        w.real.contains_key(place),
    ensures
        ({
            let (h1, a1) = restore_of(h, p);
            let (h2, w2, a2) = run(h1, w, a1, 10);
            &&& a2 == ActionView::Finish(OutcomeView::Completed)
            &&& h2 == HandlerView {
                state: without_entry(h.state, original),
                index: 1,
                ..assigned(h, Job::Restore, seq![p], Phase::Idle)
            }
            &&& distinct(h.state) ==> !h2.state.contains(original)
            &&& w2.volumes == w.volumes
            &&& w2.real == w.real.remove(original).remove(place).insert(original, w.real[place])
            &&& w2.links == w.links.remove(original)
            &&& w2.saved == if h.state.contains(original) {
                Some(h2.state)
            } else {
                w.saved
            }
        }),
{
    lemma_without_entry(h.state, original);
    reveal_with_fuel(run, 11);
    let (h1, a1) = restore_of(h, p);
    let (h2, w2, a2) = run(h1, w, a1, 10);
    assert(w2.real =~= w.real.remove(original).remove(place).insert(original, w.real[place]));
    assert(w2.links =~= w.links.remove(original));
}

/// A restore of a path that does not exist ends as `NotExist`, and one of a
/// path that exists and is no link as `NotSymbolicLink`. Either way the
/// record and the world stay as they were.
pub proof fn lemma_restore_refused(
    h: HandlerView,
    w: World,
    p: Seq<char>,
    original: Seq<char>,
    place: Seq<char>,
)
    requires
        located(assigned(h, Job::Restore, seq![p], Phase::Idle), 0) == Some((original, place)),
        !exists_at(w, original) || !w.links.contains_key(original),
    ensures
        ({
            let (h1, a1) = restore_of(h, p);
            let (h2, w2, a2) = run(h1, w, a1, 10);
            &&& a2 == if exists_at(w, original) {
                stop_before(FailureKind::NotSymbolicLink, original)
            } else {
                stop_before(FailureKind::NotExist, original)
            }
            &&& h2.state == h.state
            &&& h2.phase == Phase::Idle
            &&& w2 == w
        }),
{
    reveal_with_fuel(run, 4);
}

/// Round trip: a backup of an existing path followed by its restore leaves
/// the content where it was, as real content and not as a link, nothing at
/// its place on the volume, and the path out of the record.
pub proof fn lemma_round_trip(
    h: HandlerView,
    w: World,
    p: Seq<char>,
    original: Seq<char>,
    place: Seq<char>,
)
    requires
        distinct(h.state),
        located(assigned(h, Job::Backup, seq![p], Phase::Idle), 0) == Some((original, place)),
        parent_of(place) is Some,
        place != original,
        w.real.contains_key(original),
        !w.links.contains_key(original),
    ensures
        ({
            let (h1, a1) = backup_of(h, p);
            let (h2, w2, a2) = run(h1, w, a1, 10);
            let (h3, a3) = restore_of(h2, p);
            let (h4, w4, a4) = run(h3, w2, a3, 10);
            &&& a2 == ActionView::Finish(OutcomeView::Completed)
            &&& a4 == ActionView::Finish(OutcomeView::Completed)
            &&& w4.real == w.real.remove(place)
            &&& w4.real.contains_key(original)
            &&& w4.real[original] == w.real[original]
            &&& w4.links == w.links
            &&& !w4.links.contains_key(original)
            &&& !h4.state.contains(original)
            &&& distinct(h4.state)
        }),
{
    lemma_backup_relocates(h, w, p, original, place);
    let (h1, a1) = backup_of(h, p);
    let (h2, w2, a2) = run(h1, w, a1, 10);
    assert(assigned(h2, Job::Restore, seq![p], Phase::Idle) == HandlerView {
        state: h2.state,
        job: Job::Restore,
        ..assigned(h, Job::Backup, seq![p], Phase::Idle)
    });
    lemma_with_entry(h.state, original);
    lemma_restore_returns(h2, w2, p, original, place);
    lemma_without_entry(h2.state, original);
    let (h3, a3) = restore_of(h2, p);
    let (h4, w4, a4) = run(h3, w2, a3, 10);
    assert(w4.real =~= w.real.remove(place));
    assert(w4.links =~= w.links);
}

/// A full restore of a relocated path completes. It puts the content back,
/// takes the link away, and then tears down: the state file is gone, the
/// record is empty, and the volume is no longer mounted.
pub proof fn lemma_restore_all_tears_down(
    h: HandlerView,
    w: World,
    p: Seq<char>,
    original: Seq<char>,
    place: Seq<char>,
)
    requires
        located(assigned(h, Job::RestoreAll, seq![p], Phase::Idle), 0) == Some((original, place)),
        place != original,
        w.links.contains_key(original),
        w.links[original] == place,
        w.real.contains_key(place),
    ensures
        ({
            let (h1, a1) = restore_all_of(h, p);
            let (h2, w2, a2) = run(h1, w, a1, 10);
            &&& a2 == ActionView::Finish(OutcomeView::Completed)
            &&& h2.phase == Phase::Idle
            &&& h2.state.len() == 0
            &&& w2.saved is None
            &&& !w2.volumes.contains(h.name)
            &&& w2.real == w.real.remove(original).remove(place).insert(original, w.real[place])
            &&& w2.links == w.links.remove(original)
        }),
{
    lemma_without_entry(h.state, original);
    let (h1, a1) = restore_all_of(h, p);
    let a0 = ActionView::PathExists { path: original };
    assert(a1 == a0);
    let (w1, e1) = world_reply(w, a0);
    let (g1, b1) = handler_next(h1, e1);
    let (w2, e2) = world_reply(w1, b1);
    let (g2, b2) = handler_next(g1, e2);
    let (w3, e3) = world_reply(w2, b2);
    let (g3, b3) = handler_next(g2, e3);
    assert(b3 == ActionView::Relocate { from: place, to: original });
    let (w4, e4) = world_reply(w3, b3);
    let (g4, b4) = handler_next(g3, e4);
    assert(w4.real =~= w.real.remove(original).remove(place).insert(original, w.real[place]));
    assert(w4.links =~= w.links.remove(original));
    assert(run(h1, w, a1, 10) == run(g4, w4, b4, 6)) by {
        reveal_with_fuel(run, 5);
    }
    assert(run(g4, w4, b4, 6).2 == ActionView::Finish(OutcomeView::Completed) && run(
        g4,
        w4,
        b4,
        6,
    ).0.state.len() == 0 && run(g4, w4, b4, 6).0.phase == Phase::Idle && run(g4, w4, b4, 6).1
        == World { saved: None, volumes: w.volumes.remove(h.name), ..w4 }) by {
        reveal_with_fuel(run, 7);
        assert(w.volumes.remove(h.name) =~= w4.volumes.remove(h.name));
        if !w.volumes.contains(h.name) {
            assert(w.volumes.remove(h.name) =~= w.volumes);
        }
    }
}

} // verus!
