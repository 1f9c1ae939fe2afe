//! What a backup and a restore of a whole list of paths achieve in the
//! ideal world: the paths are worked in their order, and the job stops at
//! the first that is missing.

use vstd::prelude::*;
use crate::apppath::parent_of;
use crate::handler::{
    HandlerView, Job, Phase, VolumeStage, assigned, entered, handler_next, located, wound_up,
};
use crate::model::{World, lemma_batch_keeps_volumes, lemma_teardown, run, world_reply};
use crate::state::{
    distinct, lemma_with_entry, lemma_without_entry, lemma_without_keeps_absent, with_entry,
    without_entry,
};
use crate::step::{ActionView, EventView, FailureKind, OutcomeView, stop_before};
use crate::subcmd::Stage;

verus! {

/// The absolute form of the path at `j`.
pub open spec fn original_at(h: HandlerView, j: int) -> Seq<char> {
    located(h, j).unwrap().0
}

/// The place on the volume of the path at `j`.
pub open spec fn place_at(h: HandlerView, j: int) -> Seq<char> {
    located(h, j).unwrap().1
}

/// Two engines resolve every path alike.
pub open spec fn same_paths(g: HandlerView, h: HandlerView) -> bool {
    &&& g.paths == h.paths
    &&& g.home == h.home
    &&& g.cwd == h.cwd
    &&& g.mount_path == h.mount_path
    &&& g.name == h.name
}

/// The path at `j` can be relocated: it resolves, its place is another path
/// and has a parent, and in the world it holds content and is no link.
pub open spec fn path_ready(h: HandlerView, w: World, j: int) -> bool {
    &&& located(h, j) is Some
    &&& parent_of(place_at(h, j)) is Some
    &&& place_at(h, j) != original_at(h, j)
    &&& w.real.contains_key(original_at(h, j))
    &&& !w.links.contains_key(original_at(h, j))
}

/// The paths at `j` and `k` have different absolute forms.
pub open spec fn differ(h: HandlerView, j: int, k: int) -> bool {
    original_at(h, j) != original_at(h, k)
}

/// The paths at `j` and `k` have different absolute forms, and the place
/// of the first is not the absolute form of the second.
pub open spec fn apart(h: HandlerView, j: int, k: int) -> bool {
    original_at(h, j) != original_at(h, k) && place_at(h, j) != original_at(h, k)
}

/// The path at `k` is missing in the world, and none of the paths from `i`
/// up to it has it as its absolute form or as its place.
pub open spec fn path_missing(h: HandlerView, w: World, i: int, k: int) -> bool {
    &&& located(h, k) is Some
    &&& !w.real.contains_key(original_at(h, k))
    &&& !w.links.contains_key(original_at(h, k))
    &&& forall|j: int| i <= j < k ==> #[trigger] apart(h, j, k)
}

/// The paths from `i` up to `stop` can be relocated one after the other:
/// each is ready and no two have the same absolute form; and where `stop`
/// is a path, that path is missing.
pub open spec fn batch_ready(h: HandlerView, w: World, i: int, stop: int) -> bool {
    &&& 0 <= i <= stop <= h.paths.len()
    &&& forall|j: int| i <= j < stop ==> #[trigger] path_ready(h, w, j)
    &&& forall|j: int, k: int| i <= j < k < stop ==> #[trigger] differ(h, j, k)
    &&& stop < h.paths.len() ==> path_missing(h, w, i, stop)
}

/// The record after the paths from `i` up to `stop` were recorded.
pub open spec fn recorded_upto(h: HandlerView, state: Seq<Seq<char>>, i: int, stop: int) -> Seq<
    Seq<char>,
>
    decreases stop - i,
{
    if i >= stop {
        state
    } else {
        recorded_upto(h, with_entry(state, original_at(h, i)), i + 1, stop)
    }
}

/// The world after the path at `i` was relocated in `w`.
pub open spec fn relocated(h: HandlerView, w: World, v: World, i: int) -> bool {
    &&& v.real == w.real.remove(original_at(h, i)).insert(
        place_at(h, i),
        w.real[original_at(h, i)],
    )
    &&& v.links == w.links.insert(original_at(h, i), place_at(h, i))
}

/// What a batch leaves behind: the job has ended, as `NotExist` where it
/// stopped at a path and as completed otherwise; the record holds what it
/// held and each path before the stop; each of those paths is a link to its
/// place; the links that were there are kept.
pub open spec fn batch_done(
    h: HandlerView,
    state: Seq<Seq<char>>,
    w: World,
    i: int,
    stop: int,
    r: (HandlerView, World, ActionView),
) -> bool {
    &&& r.2 == if stop < h.paths.len() {
        stop_before(FailureKind::NotExist, original_at(h, stop))
    } else {
        ActionView::Finish(OutcomeView::Completed)
    }
    &&& r.0 == HandlerView {
        state: recorded_upto(h, state, i, stop),
        index: stop,
        phase: Phase::Idle,
        ..h
    }
    &&& forall|s: Seq<char>| state.contains(s) ==> r.0.state.contains(s)
    &&& forall|x: Seq<char>| #[trigger]
        w.links.contains_key(x) ==> r.1.links.contains_key(x) && r.1.links[x] == w.links[x]
    &&& forall|j: int|
        i <= j < stop ==> r.0.state.contains(#[trigger] original_at(h, j))
            && r.1.links.contains_key(original_at(h, j)) && r.1.links[original_at(h, j)]
            == place_at(h, j)
}

/// The transaction on one path of a backup, from the first question on: in
/// a world where the path holds content and is no link, it moves the
/// content, leaves the link and records the path, writes the record where
/// it changed, and turns to the next path.
pub proof fn lemma_backup_one(h: HandlerView, w: World, n: nat)
    requires
        h.job == Job::Backup,
        h.phase == Phase::Moving(Stage::Exists),
        0 <= h.index < h.paths.len(),
        path_ready(h, w, h.index),
        n >= 6,
    ensures
        ({
            let original = original_at(h, h.index);
            let place = place_at(h, h.index);
            let state = with_entry(h.state, original);
            let (h2, a2) = entered(HandlerView { state, ..h }, h.index + 1);
            let w2 = World {
                real: w.real.remove(original).insert(place, w.real[original]),
                links: w.links.insert(original, place),
                saved: if h.state.contains(original) {
                    w.saved
                } else {
                    Some(state)
                },
                ..w
            };
            let used: nat = if h.state.contains(original) {
                5
            } else {
                6
            };
            run(h, w, ActionView::PathExists { path: original }, n) == run(
                h2,
                w2,
                a2,
                (n - used) as nat,
            )
        }),
{
    let original = original_at(h, h.index);
    let place = place_at(h, h.index);
    assert(located(h, h.index) == Some((original, place)));
    reveal_with_fuel(run, 7);
    let a0 = ActionView::PathExists { path: original };
    let (w1, e1) = world_reply(w, a0);
    let (h1, a1) = handler_next(h, e1);
    assert(a1 == ActionView::IsSymlink { path: original });
    let (w2, e2) = world_reply(w1, a1);
    let (h2, a2) = handler_next(h1, e2);
    assert(a2 == ActionView::CreateDirAll { path: parent_of(place).unwrap() });
    let (w3, e3) = world_reply(w2, a2);
    let (h3, a3) = handler_next(h2, e3);
    assert(a3 == ActionView::Relocate { from: original, to: place });
    let (w4, e4) = world_reply(w3, a3);
    let (h4, a4) = handler_next(h3, e4);
    assert(a4 == ActionView::Symlink { target: place, link: original });
    let (w5, e5) = world_reply(w4, a4);
    let (h5, a5) = handler_next(h4, e5);
    assert(run(h, w, a0, n) == run(h5, w5, a5, (n - 5) as nat));
}

/// Once the first path of a ready batch is relocated, the rest is a ready
/// batch.
pub proof fn lemma_ready_after(
    h: HandlerView,
    w: World,
    g: HandlerView,
    v: World,
    i: int,
    stop: int,
)
    requires
        batch_ready(h, w, i, stop),
        i < stop,
        same_paths(g, h),
        relocated(h, w, v, i),
    ensures
        batch_ready(g, v, i + 1, stop),
{
    assert forall|j: int| located(g, j) == located(h, j) by {}
    assert forall|j: int| i + 1 <= j < stop implies #[trigger] path_ready(g, v, j) by {
        assert(path_ready(h, w, j));
        assert(differ(h, i, j));
    }
    assert forall|j: int, k: int| i + 1 <= j < k < stop implies #[trigger] differ(g, j, k) by {
        assert(differ(h, j, k));
    }
    if stop < h.paths.len() {
        assert(apart(h, i, stop));
        assert forall|j: int| i + 1 <= j < stop implies #[trigger] apart(g, j, stop) by {
            assert(apart(h, j, stop));
        }
    }
}

/// The record that a batch leaves depends on the engine only through the
/// paths and what resolves them.
pub proof fn lemma_recorded_same(
    g: HandlerView,
    h: HandlerView,
    state: Seq<Seq<char>>,
    i: int,
    stop: int,
)
    requires
        forall|j: int| original_at(g, j) == original_at(h, j),
    ensures
        recorded_upto(g, state, i, stop) == recorded_upto(h, state, i, stop),
    decreases stop - i,
{
    if i < stop {
        lemma_recorded_same(g, h, with_entry(state, original_at(h, i)), i + 1, stop);
    }
}

/// What the rest of a batch leaves behind, taken together with the first
/// path, is what the whole batch leaves behind.
pub proof fn lemma_done_extends(
    h: HandlerView,
    w: World,
    g: HandlerView,
    v: World,
    i: int,
    stop: int,
    r: (HandlerView, World, ActionView),
)
    requires
        0 <= i < stop <= h.paths.len(),
        located(h, i) is Some,
        !w.links.contains_key(original_at(h, i)),
        same_paths(g, h),
        g.size == h.size,
        g.job == h.job,
        g.state == with_entry(h.state, original_at(h, i)),
        relocated(h, w, v, i),
        batch_done(g, g.state, v, i + 1, stop, r),
    ensures
        batch_done(h, h.state, w, i, stop, r),
{
    let original = original_at(h, i);
    assert forall|j: int| located(g, j) == located(h, j) by {}
    lemma_with_entry(h.state, original);
    lemma_recorded_same(g, h, g.state, i + 1, stop);
    assert(recorded_upto(h, h.state, i, stop) == recorded_upto(h, g.state, i + 1, stop));
    assert(v.links.contains_key(original));
    assert forall|s: Seq<char>| h.state.contains(s) implies r.0.state.contains(s) by {
        assert(g.state.contains(s));
    }
    assert forall|x: Seq<char>| #[trigger] w.links.contains_key(x) implies r.1.links.contains_key(
        x,
    ) && r.1.links[x] == w.links[x] by {
        assert(v.links.contains_key(x));
    }
    assert forall|j: int| i <= j < stop implies r.0.state.contains(#[trigger] original_at(h, j))
        && r.1.links.contains_key(original_at(h, j)) && r.1.links[original_at(h, j)] == place_at(
        h,
        j,
    ) by {
        if j > i {
            assert(original_at(g, j) == original_at(h, j));
        } else {
            assert(g.state.contains(original));
        }
    }
}

/// A batch that begins at a missing path ends there.
proof fn lemma_batch_blocked(h: HandlerView, w: World, n: nat)
    requires
        h.job == Job::Backup,
        h.phase == Phase::Moving(Stage::Exists),
        0 <= h.index < h.paths.len(),
        path_missing(h, w, h.index, h.index),
        n >= 1,
    ensures
        batch_done(
            h,
            h.state,
            w,
            h.index,
            h.index,
            run(h, w, ActionView::PathExists { path: original_at(h, h.index) }, n),
        ),
{
    let original = original_at(h, h.index);
    assert(located(h, h.index) == Some((original, place_at(h, h.index))));
    reveal_with_fuel(run, 2);
}

/// The last path of a batch, once relocated and recorded, completes it.
proof fn lemma_batch_last(
    h: HandlerView,
    w: World,
    v: World,
    r: (HandlerView, World, ActionView),
)
    requires
        h.job == Job::Backup,
        0 <= h.index,
        h.index + 1 == h.paths.len(),
        located(h, h.index) is Some,
        relocated(h, w, v, h.index),
        !w.links.contains_key(original_at(h, h.index)),
        r == (
            HandlerView {
                state: with_entry(h.state, original_at(h, h.index)),
                index: h.index + 1,
                phase: Phase::Idle,
                ..h
            },
            v,
            ActionView::Finish(OutcomeView::Completed),
        ),
    ensures
        batch_done(h, h.state, w, h.index, h.index + 1, r),
{
    let original = original_at(h, h.index);
    lemma_with_entry(h.state, original);
    assert(recorded_upto(h, h.state, h.index, h.index + 1) == with_entry(h.state, original)) by {
        reveal_with_fuel(recorded_upto, 2);
    }
    assert(v.links.contains_key(original));
}

/// A backup of a list of paths relocates them in their order. Where every
/// path is ready the job completes; where a path is missing the job ends
/// there as `NotExist`, with the paths before it relocated and recorded.
pub proof fn lemma_backup_batch(h: HandlerView, w: World, stop: int, n: nat)
    requires
        h.job == Job::Backup,
        h.phase == Phase::Moving(Stage::Exists),
        h.index < h.paths.len(),
        batch_ready(h, w, h.index, stop),
        n >= 6 * (stop - h.index) + 1,
    ensures
        batch_done(
            h,
            h.state,
            w,
            h.index,
            stop,
            run(h, w, ActionView::PathExists { path: original_at(h, h.index) }, n),
        ),
    decreases stop - h.index,
{
    let i = h.index;
    let original = original_at(h, i);
    let a0 = ActionView::PathExists { path: original };
    if i == stop {
        lemma_batch_blocked(h, w, n);
    } else {
        assert(path_ready(h, w, i));
        let place = place_at(h, i);
        lemma_backup_one(h, w, n);
        let state = with_entry(h.state, original);
        let hs = HandlerView { state, ..h };
        let (h2, a2) = entered(hs, i + 1);
        let w2 = World {
            real: w.real.remove(original).insert(place, w.real[original]),
            links: w.links.insert(original, place),
            saved: if h.state.contains(original) {
                w.saved
            } else {
                Some(state)
            },
            ..w
        };
        let used: nat = if h.state.contains(original) {
            5
        } else {
            6
        };
        let rest = (n - used) as nat;
        assert(run(h, w, a0, n) == run(h2, w2, a2, rest));
        let g = HandlerView { index: i + 1, phase: Phase::Moving(Stage::Exists), ..hs };
        lemma_ready_after(h, w, g, w2, i, stop);
        if i + 1 == h.paths.len() {
            lemma_batch_last(h, w, w2, run(h2, w2, a2, rest));
        } else {
            if i + 1 < stop {
                assert(path_ready(g, w2, i + 1));
            } else {
                assert(path_missing(g, w2, i + 1, stop));
            }
            assert(located(hs, i + 1) == located(g, i + 1));
            assert(h2 == g);
            assert(a2 == ActionView::PathExists { path: original_at(g, i + 1) });
            lemma_backup_batch(g, w2, stop, rest);
            lemma_done_extends(h, w, g, w2, i, stop, run(g, w2, a2, rest));
        }
    }
}

/// A whole backup job, from an engine at rest: the volume is mounted where
/// it was not, and then the paths are relocated in their order, up to the
/// first that is missing.
pub proof fn lemma_backup_job(h: HandlerView, w: World, paths: Seq<Seq<char>>, stop: int)
    requires
        batch_ready(assigned(h, Job::Backup, paths, Phase::Idle), w, 0, stop),
    ensures
        ({
            let (h1, a1) = handler_next(
                assigned(h, Job::Backup, paths, Phase::Mounting(VolumeStage::Begin)),
                EventView::Start,
            );
            let r = run(h1, w, a1, (6 * stop + 4) as nat);
            &&& batch_done(assigned(h, Job::Backup, paths, Phase::Idle), h.state, w, 0, stop, r)
            &&& r.1.volumes.contains(h.name)
            &&& r.1.attached == w.attached + if w.volumes.contains(h.name) {
                0nat
            } else {
                1nat
            }
        }),
{
    let h0 = assigned(h, Job::Backup, paths, Phase::Idle);
    let (h1, a1) = handler_next(
        assigned(h, Job::Backup, paths, Phase::Mounting(VolumeStage::Begin)),
        EventView::Start,
    );
    let n = (6 * stop + 4) as nat;
    let wm = if w.volumes.contains(h.name) {
        w
    } else {
        World {
            volumes: w.volumes.insert(h.name),
            attached: w.attached + 1,
            erased: w.erased + 1,
            ..w
        }
    };
    let used: nat = if w.volumes.contains(h.name) {
        1
    } else {
        3
    };
    let (hm, am) = entered(h0, 0);
    assert(run(h1, w, a1, n) == run(hm, wm, am, (n - used) as nat)) by {
        reveal_with_fuel(run, 4);
    }
    if paths.len() == 0 {
        assert(run(hm, wm, am, (n - used) as nat) == (hm, wm, am)) by {
            reveal_with_fuel(run, 2);
        }
        assert(recorded_upto(h0, h.state, 0, 0) == h.state);
    } else {
        if 0 < stop {
            assert(path_ready(h0, w, 0));
        } else {
            assert(path_missing(h0, w, 0, 0));
        }
        let g = HandlerView { phase: Phase::Moving(Stage::Exists), ..h0 };
        assert(hm == g);
        assert forall|j: int| located(g, j) == located(h0, j) by {}
        assert(batch_ready(g, wm, 0, stop)) by {
            assert forall|j: int| 0 <= j < stop implies #[trigger] path_ready(g, wm, j) by {
                assert(path_ready(h0, w, j));
            }
            assert forall|j: int, k: int| 0 <= j < k < stop implies #[trigger] differ(g, j, k) by {
                assert(differ(h0, j, k));
            }
            if stop < paths.len() {
                assert forall|j: int| 0 <= j < stop implies #[trigger] apart(g, j, stop) by {
                    assert(apart(h0, j, stop));
                }
            }
        }
        lemma_backup_batch(g, wm, stop, (n - used) as nat);
        let r = run(g, wm, am, (n - used) as nat);
        lemma_recorded_same(g, h0, h.state, 0, stop);
        assert(batch_done(h0, h.state, w, 0, stop, r)) by {
            assert forall|j: int| 0 <= j < stop implies r.0.state.contains(
                #[trigger] original_at(h0, j),
            ) && r.1.links.contains_key(original_at(h0, j)) && r.1.links[original_at(h0, j)]
                == place_at(h0, j) by {
                assert(original_at(g, j) == original_at(h0, j));
            }
        }
        lemma_batch_keeps_volumes(g, wm, am, (n - used) as nat);
    }
}

/// The path at `j` is relocated: it resolves, its place is another path,
/// and in the world it is a link to its place, which holds content.
pub open spec fn path_linked(h: HandlerView, w: World, j: int) -> bool {
    &&& located(h, j) is Some
    &&& place_at(h, j) != original_at(h, j)
    &&& w.links.contains_key(original_at(h, j))
    &&& w.links[original_at(h, j)] == place_at(h, j)
    &&& w.real.contains_key(place_at(h, j))
}

/// The paths at `j` and `k` share neither their absolute forms nor their
/// places.
pub open spec fn separate(h: HandlerView, j: int, k: int) -> bool {
    &&& original_at(h, j) != original_at(h, k)
    &&& place_at(h, j) != place_at(h, k)
    &&& original_at(h, j) != place_at(h, k)
    &&& place_at(h, j) != original_at(h, k)
}

/// The paths from `i` up to `stop` can be restored one after the other:
/// each is relocated and no two share a path; and where `stop` is a path,
/// that path is missing and is none of the paths before it.
pub open spec fn restore_ready(h: HandlerView, w: World, i: int, stop: int) -> bool {
    &&& 0 <= i <= stop <= h.paths.len()
    &&& forall|j: int| i <= j < stop ==> #[trigger] path_linked(h, w, j)
    &&& forall|j: int, k: int| i <= j < k < stop ==> #[trigger] separate(h, j, k)
    &&& stop < h.paths.len() ==> path_missing(h, w, i, stop)
}

/// The world after the path at `i` was restored in `w`, with the record
/// `state` before it.
pub open spec fn restored_one(h: HandlerView, state: Seq<Seq<char>>, w: World, i: int) -> World {
    World {
        real: w.real.remove(original_at(h, i)).remove(place_at(h, i)).insert(
            original_at(h, i),
            w.real[place_at(h, i)],
        ),
        links: w.links.remove(original_at(h, i)),
        saved: if state.contains(original_at(h, i)) {
            Some(without_entry(state, original_at(h, i)))
        } else {
            w.saved
        },
        ..w
    }
}

/// The record and the world after the paths from `i` up to `stop` were
/// restored.
pub open spec fn restored_upto(
    h: HandlerView,
    state: Seq<Seq<char>>,
    w: World,
    i: int,
    stop: int,
) -> (Seq<Seq<char>>, World)
    decreases stop - i,
{
    if i >= stop {
        (state, w)
    } else {
        restored_upto(
            h,
            without_entry(state, original_at(h, i)),
            restored_one(h, state, w, i),
            i + 1,
            stop,
        )
    }
}

/// The number of actions that restoring the paths from `i` up to `stop`
/// takes: four for each, and one more where the record changes.
pub open spec fn restore_steps(h: HandlerView, state: Seq<Seq<char>>, i: int, stop: int) -> nat
    decreases stop - i,
{
    if i >= stop {
        0
    } else {
        let own: nat = if state.contains(original_at(h, i)) {
            5
        } else {
            4
        };
        own + restore_steps(h, without_entry(state, original_at(h, i)), i + 1, stop)
    }
}

/// How a batch of restores ends: at a missing path as `NotExist`, and
/// otherwise by winding up, which completes a restore and turns a full
/// restore to the teardown.
pub open spec fn restore_end(h: HandlerView, state: Seq<Seq<char>>, stop: int) -> (
    HandlerView,
    ActionView,
) {
    let g = HandlerView { state, index: stop, ..h };
    if stop < h.paths.len() {
        (
            HandlerView { phase: Phase::Idle, ..g },
            stop_before(FailureKind::NotExist, original_at(h, stop)),
        )
    } else {
        wound_up(g)
    }
}

/// The transaction on one path of a restore, from the first question on: in
/// a world where the path is a link to its place, it takes the link away,
/// moves the content back and strikes the path, writes the record where it
/// changed, and turns to the next path.
pub proof fn lemma_restore_one(h: HandlerView, w: World, n: nat)
    requires
        h.job == Job::Restore || h.job == Job::RestoreAll,
        h.phase == Phase::Moving(Stage::Exists),
        0 <= h.index < h.paths.len(),
        path_linked(h, w, h.index),
        n >= 5,
    ensures
        ({
            let original = original_at(h, h.index);
            let state = without_entry(h.state, original);
            let (h2, a2) = entered(HandlerView { state, ..h }, h.index + 1);
            let used: nat = if h.state.contains(original) {
                5
            } else {
                4
            };
            run(h, w, ActionView::PathExists { path: original }, n) == run(
                h2,
                restored_one(h, h.state, w, h.index),
                a2,
                (n - used) as nat,
            )
        }),
{
    let original = original_at(h, h.index);
    let place = place_at(h, h.index);
    assert(located(h, h.index) == Some((original, place)));
    lemma_without_entry(h.state, original);
    reveal_with_fuel(run, 6);
    let a0 = ActionView::PathExists { path: original };
    let (w1, e1) = world_reply(w, a0);
    let (h1, a1) = handler_next(h, e1);
    assert(a1 == ActionView::IsSymlink { path: original });
    let (w2, e2) = world_reply(w1, a1);
    let (h2, a2) = handler_next(h1, e2);
    assert(a2 == ActionView::RemoveFile { path: original });
    let (w3, e3) = world_reply(w2, a2);
    let (h3, a3) = handler_next(h2, e3);
    assert(a3 == ActionView::Relocate { from: place, to: original });
    let (w4, e4) = world_reply(w3, a3);
    let (h4, a4) = handler_next(h3, e4);
    assert(w4.real =~= w.real.remove(original).remove(place).insert(original, w.real[place]));
    assert(run(h, w, a0, n) == run(h4, w4, a4, (n - 4) as nat));
}

/// Once the first path of a batch that is ready for its restore is
/// restored, the rest is ready.
pub proof fn lemma_restore_ready_after(
    h: HandlerView,
    w: World,
    g: HandlerView,
    state: Seq<Seq<char>>,
    i: int,
    stop: int,
)
    requires
        restore_ready(h, w, i, stop),
        i < stop,
        same_paths(g, h),
    ensures
        restore_ready(g, restored_one(h, state, w, i), i + 1, stop),
{
    let v = restored_one(h, state, w, i);
    assert forall|j: int| located(g, j) == located(h, j) by {}
    assert(path_linked(h, w, i));
    assert forall|j: int| i + 1 <= j < stop implies #[trigger] path_linked(g, v, j) by {
        assert(path_linked(h, w, j));
        assert(separate(h, i, j));
    }
    assert forall|j: int, k: int| i + 1 <= j < k < stop implies #[trigger] separate(g, j, k) by {
        assert(separate(h, j, k));
    }
    if stop < h.paths.len() {
        assert(apart(h, i, stop));
        assert forall|j: int| i + 1 <= j < stop implies #[trigger] apart(g, j, stop) by {
            assert(apart(h, j, stop));
        }
    }
}

/// Whether a batch is ready for its restore depends on the engine only
/// through the paths and what resolves them.
pub proof fn lemma_restore_ready_same(h: HandlerView, g: HandlerView, w: World, stop: int)
    requires
        same_paths(g, h),
        restore_ready(h, w, 0, stop),
    ensures
        restore_ready(g, w, 0, stop),
{
    assert forall|j: int| located(g, j) == located(h, j) by {}
    assert forall|j: int| 0 <= j < stop implies #[trigger] path_linked(g, w, j) by {
        assert(path_linked(h, w, j));
    }
    assert forall|j: int, k: int| 0 <= j < k < stop implies #[trigger] separate(g, j, k) by {
        assert(separate(h, j, k));
    }
    if stop < h.paths.len() {
        assert forall|j: int| 0 <= j < stop implies #[trigger] apart(g, j, stop) by {
            assert(apart(h, j, stop));
        }
    }
}

/// What restoring a batch comes to depends on the engine only through the
/// paths and what resolves them.
pub proof fn lemma_restored_same(
    g: HandlerView,
    h: HandlerView,
    state: Seq<Seq<char>>,
    w: World,
    i: int,
    stop: int,
)
    requires
        same_paths(g, h),
    ensures
        restored_upto(g, state, w, i, stop) == restored_upto(h, state, w, i, stop),
        restore_steps(g, state, i, stop) == restore_steps(h, state, i, stop),
    decreases stop - i,
{
    assert(located(g, i) == located(h, i));
    if i < stop {
        lemma_restored_same(
            g,
            h,
            without_entry(state, original_at(h, i)),
            restored_one(h, state, w, i),
            i + 1,
            stop,
        );
    }
}

/// A restore of a list of paths restores them in their order, up to the
/// first that is missing: after the actions that this takes, the record and
/// the world are what restoring them one by one gives, and the job ends or
/// winds up.
pub proof fn lemma_restore_batch(h: HandlerView, w: World, stop: int, n: nat)
    requires
        h.job == Job::Restore || h.job == Job::RestoreAll,
        h.phase == Phase::Moving(Stage::Exists),
        h.index < h.paths.len(),
        restore_ready(h, w, h.index, stop),
        n >= restore_steps(h, h.state, h.index, stop) + 1,
    ensures
        ({
            let (state, v) = restored_upto(h, h.state, w, h.index, stop);
            let (h2, a2) = restore_end(h, state, stop);
            let used = restore_steps(h, h.state, h.index, stop) + if stop < h.paths.len() {
                1nat
            } else {
                0nat
            };
            run(h, w, ActionView::PathExists { path: original_at(h, h.index) }, n) == run(
                h2,
                v,
                a2,
                (n - used) as nat,
            )
        }),
    decreases stop - h.index,
{
    let i = h.index;
    let original = original_at(h, i);
    let a0 = ActionView::PathExists { path: original };
    if i == stop {
        assert(path_missing(h, w, i, stop));
        assert(located(h, i) == Some((original, place_at(h, i))));
        reveal_with_fuel(run, 2);
    } else {
        assert(path_linked(h, w, i));
        lemma_restore_one(h, w, n);
        let state = without_entry(h.state, original);
        let hs = HandlerView { state, ..h };
        let (h2, a2) = entered(hs, i + 1);
        let w2 = restored_one(h, h.state, w, i);
        let own: nat = if h.state.contains(original) {
            5
        } else {
            4
        };
        let rest = (n - own) as nat;
        assert(run(h, w, a0, n) == run(h2, w2, a2, rest));
        let g = HandlerView { index: i + 1, phase: Phase::Moving(Stage::Exists), ..hs };
        lemma_restore_ready_after(h, w, g, h.state, i, stop);
        lemma_restored_same(g, h, state, w2, i + 1, stop);
        if i + 1 == h.paths.len() {
            assert(restored_upto(h, h.state, w, i, stop) == (state, w2)) by {
                reveal_with_fuel(restored_upto, 2);
            }
            assert(restore_steps(h, h.state, i, stop) == own) by {
                reveal_with_fuel(restore_steps, 2);
            }
        } else {
            if i + 1 < stop {
                assert(path_linked(g, w2, i + 1));
            } else {
                assert(path_missing(g, w2, i + 1, stop));
            }
            assert(located(hs, i + 1) == located(g, i + 1));
            assert(h2 == g);
            assert(a2 == ActionView::PathExists { path: original_at(g, i + 1) });
            lemma_restore_batch(g, w2, stop, rest);
            assert(original_at(g, stop) == original_at(h, stop)) by {
                assert(located(g, stop) == located(h, stop));
            }
        }
    }
}

/// Restoring a batch leaves a path that is none of its paths and none of
/// their places as it was.
pub proof fn lemma_restored_frame(
    h: HandlerView,
    state: Seq<Seq<char>>,
    w: World,
    i: int,
    stop: int,
    x: Seq<char>,
)
    requires
        forall|j: int| i <= j < stop ==> original_at(h, j) != x && place_at(h, j) != x,
    ensures
        ({
            let v = restored_upto(h, state, w, i, stop).1;
            &&& v.real.contains_key(x) == w.real.contains_key(x)
            &&& v.real.contains_key(x) ==> v.real[x] == w.real[x]
            &&& v.links.contains_key(x) == w.links.contains_key(x)
        }),
    decreases stop - i,
{
    if i < stop {
        lemma_restored_frame(
            h,
            without_entry(state, original_at(h, i)),
            restored_one(h, state, w, i),
            i + 1,
            stop,
            x,
        );
    }
}

/// What a batch of restores leaves of each path: no link, and the content
/// of its place back where the link was. In a record without repetition
/// none of the paths is left.
pub proof fn lemma_restored_content(
    h: HandlerView,
    state: Seq<Seq<char>>,
    w: World,
    i: int,
    stop: int,
)
    requires
        0 <= i <= stop <= h.paths.len(),
        forall|j: int| i <= j < stop ==> #[trigger] path_linked(h, w, j),
        forall|j: int, k: int| i <= j < k < stop ==> #[trigger] separate(h, j, k),
    ensures
        ({
            let (state2, v) = restored_upto(h, state, w, i, stop);
            &&& v.volumes == w.volumes
            &&& distinct(state) ==> distinct(state2)
            &&& forall|s: Seq<char>| !state.contains(s) ==> !state2.contains(s)
            &&& forall|x: Seq<char>| !w.links.contains_key(x) ==> !v.links.contains_key(x)
            &&& forall|j: int|
                i <= j < stop ==> !v.links.contains_key(#[trigger] original_at(h, j))
                    && v.real.contains_key(original_at(h, j)) && v.real[original_at(h, j)]
                    == w.real[place_at(h, j)] && !v.real.contains_key(place_at(h, j)) && (distinct(
                    state,
                ) ==> !state2.contains(original_at(h, j)))
        }),
    decreases stop - i,
{
    if i < stop {
        let original = original_at(h, i);
        let place = place_at(h, i);
        let state1 = without_entry(state, original);
        let w1 = restored_one(h, state, w, i);
        assert(path_linked(h, w, i));
        lemma_without_entry(state, original);
        lemma_without_keeps_absent(state, original);
        assert forall|j: int| i + 1 <= j < stop implies #[trigger] path_linked(h, w1, j) by {
            assert(path_linked(h, w, j));
            assert(separate(h, i, j));
        }
        lemma_restored_content(h, state1, w1, i + 1, stop);
        let (state2, v) = restored_upto(h, state, w, i, stop);
        assert((state2, v) == restored_upto(h, state1, w1, i + 1, stop));
        assert forall|j: int| i + 1 <= j < stop implies original_at(h, j) != original && place_at(
            h,
            j,
        ) != original && original_at(h, j) != place && place_at(h, j) != place by {
            assert(separate(h, i, j));
        }
        lemma_restored_frame(h, state1, w1, i + 1, stop, original);
        lemma_restored_frame(h, state1, w1, i + 1, stop, place);
        assert forall|j: int| i <= j < stop implies !v.links.contains_key(
            #[trigger] original_at(h, j),
        ) && v.real.contains_key(original_at(h, j)) && v.real[original_at(h, j)]
            == w.real[place_at(h, j)] && !v.real.contains_key(place_at(h, j)) && (distinct(state)
            ==> !state2.contains(original_at(h, j))) by {
            if j > i {
                assert(separate(h, i, j));
                assert(path_linked(h, w, j));
            }
        }
    }
}

/// A whole restore job, from an engine at rest: the paths are restored in
/// their order, up to the first that is missing, where the job ends as
/// `NotExist`; otherwise it completes.
pub proof fn lemma_restore_job(
    h: HandlerView,
    w: World,
    paths: Seq<Seq<char>>,
    stop: int,
    n: nat,
)
    requires
        restore_ready(assigned(h, Job::Restore, paths, Phase::Idle), w, 0, stop),
        n >= restore_steps(assigned(h, Job::Restore, paths, Phase::Idle), h.state, 0, stop) + 1,
    ensures
        ({
            let h0 = assigned(h, Job::Restore, paths, Phase::Idle);
            let (h1, a1) = entered(h0, 0);
            let (state, v) = restored_upto(h0, h.state, w, 0, stop);
            run(h1, w, a1, n) == (
                HandlerView { state, index: stop, ..h0 },
                v,
                if stop < paths.len() {
                    stop_before(FailureKind::NotExist, original_at(h0, stop))
                } else {
                    ActionView::Finish(OutcomeView::Completed)
                },
            )
        }),
{
    let h0 = assigned(h, Job::Restore, paths, Phase::Idle);
    let (h1, a1) = entered(h0, 0);
    if paths.len() == 0 {
        reveal_with_fuel(run, 2);
    } else {
        if 0 < stop {
            assert(path_linked(h0, w, 0));
        } else {
            assert(path_missing(h0, w, 0, 0));
        }
        let g = HandlerView { phase: Phase::Moving(Stage::Exists), ..h0 };
        assert(h1 == g);
        lemma_restore_ready_same(h0, g, w, stop);
        lemma_restored_same(g, h0, h.state, w, 0, stop);
        lemma_restore_batch(g, w, stop, n);
        assert(located(g, stop) == located(h0, stop));
        let (state, v) = restored_upto(h0, h.state, w, 0, stop);
        let (h2, a2) = restore_end(g, state, stop);
        let used = restore_steps(g, h.state, 0, stop) + if stop < paths.len() {
            1nat
        } else {
            0nat
        };
        assert(run(h2, v, a2, (n - used) as nat) == (h2, v, a2)) by {
            reveal_with_fuel(run, 2);
        }
    }
}

/// A whole full restore, from an engine at rest, of paths that are all
/// relocated: each path gets the content of its place back and loses its
/// link, and then the state file is deleted, the record is emptied and the
/// volume is unmounted.
pub proof fn lemma_restore_all_job(h: HandlerView, w: World, paths: Seq<Seq<char>>, n: nat)
    requires
        restore_ready(
            assigned(h, Job::RestoreAll, paths, Phase::Idle),
            w,
            0,
            paths.len() as int,
        ),
        n >= restore_steps(
            assigned(h, Job::RestoreAll, paths, Phase::Idle),
            h.state,
            0,
            paths.len() as int,
        ) + 4,
    ensures
        ({
            let h0 = assigned(h, Job::RestoreAll, paths, Phase::Idle);
            let (h1, a1) = entered(h0, 0);
            let v = restored_upto(h0, h.state, w, 0, paths.len() as int).1;
            let r = run(h1, w, a1, n);
            &&& r.0 == HandlerView { state: Seq::empty(), index: paths.len() as int, ..h0 }
            &&& r.1 == World { saved: None, volumes: w.volumes.remove(h.name), ..v }
            &&& r.2 == ActionView::Finish(OutcomeView::Completed)
            &&& forall|j: int|
                0 <= j < paths.len() ==> !r.1.links.contains_key(#[trigger] original_at(h0, j))
                    && r.1.real.contains_key(original_at(h0, j)) && r.1.real[original_at(h0, j)]
                    == w.real[place_at(h0, j)] && !r.1.real.contains_key(place_at(h0, j))
        }),
{
    let h0 = assigned(h, Job::RestoreAll, paths, Phase::Idle);
    let stop = paths.len() as int;
    let (h1, a1) = entered(h0, 0);
    let (state, v) = restored_upto(h0, h.state, w, 0, stop);
    lemma_restored_content(h0, h.state, w, 0, stop);
    if paths.len() == 0 {
        lemma_teardown(h1, w, n);
    } else {
        assert(path_linked(h0, w, 0));
        let g = HandlerView { phase: Phase::Moving(Stage::Exists), ..h0 };
        assert(h1 == g);
        lemma_restore_ready_same(h0, g, w, stop);
        lemma_restored_same(g, h0, h.state, w, 0, stop);
        lemma_restore_batch(g, w, stop, n);
        let (h2, a2) = restore_end(g, state, stop);
        let used = restore_steps(g, h.state, 0, stop);
        lemma_teardown(h2, v, (n - used) as nat);
    }
}

} // verus!
