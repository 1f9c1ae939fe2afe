//! An ideal world, and what single steps and the volume achieve in it.
//!
//! The world holds the mounted volumes, the real content and the links on
//! disk, and the state file. It performs every action faithfully and never
//! fails. A run lets the engine act in such a world until the job ends.

use vstd::prelude::*;
use crate::apppath::{joined, lemma_join_appends, resolved};
use crate::handler::{
    HandlerView, Job, Phase, VolumeStage, assigned, entered, handler_next, located, mount_next,
};
use crate::state::{distinct, lemma_with_entry, lemma_without_entry};
use crate::step::{ActionView, EventView, FailureKind, OutcomeView, stop_before};
use crate::subcmd::Stage;

verus! {

/// The world as far as the engine deals with it.
pub struct World {
    /// The names of the mounted volumes.
    pub volumes: Set<Seq<char>>,
    /// The device that the driver hands out for a new backing store.
    pub device: Seq<char>,
    /// How many backing stores were attached.
    pub attached: nat,
    /// How many devices were formatted and named.
    pub erased: nat,
    /// The paths that hold real content, each with its content.
    pub real: Map<Seq<char>, int>,
    /// The symbolic links, each with its target.
    pub links: Map<Seq<char>, Seq<char>>,
    /// The state file, where there is one.
    pub saved: Option<Seq<Seq<char>>>,
}

/// A path exists when it holds content or is a link to content.
pub open spec fn exists_at(w: World, path: Seq<char>) -> bool {
    w.real.contains_key(path) || (w.links.contains_key(path) && w.real.contains_key(w.links[path]))
}

/// The world after an action, and the report on it.
pub open spec fn world_reply(w: World, a: ActionView) -> (World, EventView) {
    match a {
        ActionView::VolumeExists { name } => (w, EventView::Answer(w.volumes.contains(name))),
        ActionView::Attach { size } => (
            World { attached: w.attached + 1, ..w },
            EventView::Handle(w.device),
        ),
        ActionView::EraseVolume { name, mount_point } => (
            World { volumes: w.volumes.insert(name), erased: w.erased + 1, ..w },
            EventView::Done,
        ),
        ActionView::Detach { name } => (
            World { volumes: w.volumes.remove(name), ..w },
            EventView::Done,
        ),
        ActionView::PathExists { path } => (w, EventView::Answer(exists_at(w, path))),
        ActionView::IsSymlink { path } => (w, EventView::Answer(w.links.contains_key(path))),
        ActionView::CreateDirAll { path } => (w, EventView::Done),
        ActionView::Relocate { from, to } => if w.real.contains_key(from) {
            (World { real: w.real.remove(from).insert(to, w.real[from]), ..w }, EventView::Done)
        } else {
            (w, EventView::Failed(Seq::empty()))
        },
        ActionView::Symlink { target, link } => (
            World { links: w.links.insert(link, target), ..w },
            EventView::Done,
        ),
        ActionView::RemoveFile { path } => (
            World { links: w.links.remove(path), real: w.real.remove(path), ..w },
            EventView::Done,
        ),
        ActionView::SaveState { paths } => (World { saved: Some(paths), ..w }, EventView::Done),
        ActionView::RemoveStateFile => (World { saved: None, ..w }, EventView::Done),
        ActionView::Finish(_) => (w, EventView::Start),
        ActionView::Nothing => (w, EventView::Start),
    }
}

/// The engine and the world after at most `n` actions, the first of them
/// `a`; the run stops where the job ends.
pub open spec fn run(h: HandlerView, w: World, a: ActionView, n: nat) -> (
    HandlerView,
    World,
    ActionView,
)
    decreases n,
{
    if n == 0 || a is Finish || a is Nothing {
        (h, w, a)
    } else {
        let (w2, e) = world_reply(w, a);
        let (h2, a2) = handler_next(h, e);
        run(h2, w2, a2, (n - 1) as nat)
    }
}

/// A run that has ended stays as it is, however many actions more it is
/// given.
pub proof fn lemma_run_settles(h: HandlerView, w: World, a: ActionView, n: nat, m: nat)
    requires
        n <= m,
        run(h, w, a, n).2 is Finish || run(h, w, a, n).2 is Nothing,
    ensures
        run(h, w, a, m) == run(h, w, a, n),
    decreases n,
{
    if !(n == 0 || a is Finish || a is Nothing) {
        let (w2, e) = world_reply(w, a);
        let (h2, a2) = handler_next(h, e);
        lemma_run_settles(h2, w2, a2, (n - 1) as nat, (m - 1) as nat);
    }
}

/// The world after the volume was mounted in it, and the action on which
/// mounting ended.
pub open spec fn mount_run(
    name: Seq<char>,
    size: int,
    w: World,
    stage: VolumeStage,
    e: EventView,
    n: nat,
) -> (World, ActionView)
    decreases n,
{
    let (stage2, a) = mount_next(name, size, stage, e);
    if n == 0 || a is Finish || a is Nothing {
        (w, a)
    } else {
        let (w2, e2) = world_reply(w, a);
        mount_run(name, size, w2, stage2, e2, (n - 1) as nat)
    }
}

/// Mounting succeeds and leaves the volume mounted. It attaches and formats
/// at most once, and not at all where the volume exists: mounting a second
/// time changes nothing.
pub proof fn lemma_mount_idempotent(name: Seq<char>, size: int, w: World)
    ensures
        ({
            let first = mount_run(name, size, w, VolumeStage::Begin, EventView::Start, 4);
            let second = mount_run(name, size, first.0, VolumeStage::Begin, EventView::Start, 4);
            &&& first.1 == ActionView::Finish(OutcomeView::Completed)
            &&& first.0.volumes.contains(name)
            &&& first.0.attached == w.attached + if w.volumes.contains(name) { 0nat } else { 1nat }
            &&& first.0.erased == w.erased + if w.volumes.contains(name) { 0nat } else { 1nat }
            &&& w.volumes.contains(name) ==> first.0 == w
            &&& second.1 == ActionView::Finish(OutcomeView::Completed)
            &&& second.0 == first.0
        }),
{
    reveal_with_fuel(mount_run, 5);
}

/// The teardown that ends a full restore: the state file is deleted, the
/// record is emptied, and the volume is detached where it exists.
pub proof fn lemma_teardown(h: HandlerView, w: World, n: nat)
    requires
        h.phase == Phase::Dropping,
        n >= 4,
    ensures
        run(h, w, ActionView::RemoveStateFile, n) == (
            HandlerView { state: Seq::empty(), phase: Phase::Idle, ..h },
            World { saved: None, volumes: w.volumes.remove(h.name), ..w },
            ActionView::Finish(OutcomeView::Completed),
        ),
{
    reveal_with_fuel(run, 5);
    assert(w.volumes.contains(h.name) || w.volumes.remove(h.name) =~= w.volumes);
}

/// No step of a job on paths touches the volumes: while the engine is at a
/// path or writes the record, the mounted volumes and the count of attached
/// backing stores stay as they are, as long as the job is no full restore.
pub proof fn lemma_batch_keeps_volumes(h: HandlerView, w: World, a: ActionView, n: nat)
    requires
        h.job != Job::RestoreAll,
        h.phase is Moving || h.phase is Saving || h.phase is Idle,
        a is PathExists || a is IsSymlink || a is CreateDirAll || a is Relocate || a is Symlink
            || a is RemoveFile || a is SaveState || a is Finish || a is Nothing,
    ensures
        run(h, w, a, n).1.volumes == w.volumes,
        run(h, w, a, n).1.attached == w.attached,
        run(h, w, a, n).1.erased == w.erased,
    decreases n,
{
    if !(n == 0 || a is Finish || a is Nothing) {
        let (w2, e) = world_reply(w, a);
        let (h2, a2) = handler_next(h, e);
        lemma_batch_keeps_volumes(h2, w2, a2, (n - 1) as nat);
    }
}

/// A backup of a path that does not exist is refused as missing, and one of
/// a path that is a link already as a link; neither changes the record.
pub proof fn lemma_backup_preconditions(h: HandlerView, original: Seq<char>, place: Seq<char>)
    requires
        h.job == Job::Backup,
        located(h, h.index) == Some((original, place)),
    ensures
        h.phase == Phase::Moving(Stage::Exists) ==> handler_next(h, EventView::Answer(false)) == (
            HandlerView { phase: Phase::Idle, ..h },
            stop_before(FailureKind::NotExist, original),
        ),
        h.phase == Phase::Moving(Stage::Metadata) ==> handler_next(h, EventView::Answer(true)) == (
            HandlerView { phase: Phase::Idle, ..h },
            stop_before(FailureKind::AlreadySymlink, original),
        ),
{
}

/// A step that ends the job in failure leaves the record as it was.
pub proof fn lemma_failure_keeps_record(h: HandlerView, e: EventView)
    ensures
        ({
            let (h2, a) = handler_next(h, e);
            a matches ActionView::Finish(o) && o != OutcomeView::Completed ==> h2.state == h.state
        }),
{
}

/// The step is one that changes the disk, the state file or the name of a
/// device: the move of a tree, the creation of a link, the writing of the
/// record, or the naming of an attached device.
pub open spec fn mutating(phase: Phase) -> bool {
    ||| phase == Phase::Moving(Stage::Moving)
    ||| phase == Phase::Moving(Stage::Linking)
    ||| phase == Phase::Saving
    ||| phase == Phase::Mounting(VolumeStage::Erasing)
}

/// The kind of failure tells how far the job had come. A failure after a
/// partial mutation is reported only for a step that changes something. A
/// failure before commit that is reported at such a step is not a failure
/// of that step but of a path that cannot be made absolute.
pub proof fn lemma_outcome_tells_stage(h: HandlerView, e: EventView)
    ensures
        match handler_next(h, e).1 {
            ActionView::Finish(OutcomeView::FailedAfterPartialMutation(_)) => mutating(h.phase),
            ActionView::Finish(OutcomeView::FailedBeforeCommit(f)) => mutating(h.phase) ==> f.kind
                == FailureKind::InvalidPath,
            _ => true,
        },
{
    match h.phase {
        Phase::Moving(stage) => {
            match located(h, h.index) {
                Some((original, place)) => {
                    lemma_with_entry(h.state, original);
                    lemma_without_entry(h.state, original);
                },
                None => {},
            }
        },
        _ => {},
    }
}

/// A job that has ended leaves the engine idle, and an idle engine asks for
/// nothing and does not change: after the first failure no later path is
/// touched.
pub proof fn lemma_job_ends_idle(h: HandlerView, e: EventView, later: EventView)
    ensures
        ({
            let (h2, a) = handler_next(h, e);
            a is Finish ==> h2.phase == Phase::Idle && handler_next(h2, later) == (
                h2,
                ActionView::Nothing,
            )
        }),
{
}

/// Every step keeps the engine well formed and the record free of
/// repetition.
pub proof fn lemma_step_keeps_order(h: HandlerView, e: EventView)
    requires
        h.wf(),
    ensures
        handler_next(h, e).0.wf(),
        distinct(h.state) ==> distinct(handler_next(h, e).0.state),
{
    if h.phase is Moving {
        match located(h, h.index) {
            Some((original, place)) => {
                lemma_with_entry(h.state, original);
                lemma_without_entry(h.state, original);
            },
            None => {},
        }
    }
}

/// The state file holds the record: the file is missing and the record is
/// empty, or the file holds exactly the record.
pub open spec fn in_step(h: HandlerView, w: World) -> bool {
    match w.saved {
        Some(paths) => paths == h.state,
        None => h.state.len() == 0,
    }
}

/// The engine, the world and the pending action fit together: the record
/// is written exactly while the engine waits for that, the state file is
/// deleted exactly while the engine waits for that, and at every other time
/// the state file holds the record.
pub open spec fn coherent(h: HandlerView, w: World, a: ActionView) -> bool {
    &&& h.phase is Saving <==> a is SaveState
    &&& h.phase is Dropping <==> a is RemoveStateFile
    &&& a matches ActionView::SaveState { paths } ==> paths == h.state
    &&& !(h.phase is Saving) ==> in_step(h, w)
}

/// What a step makes of the record and of the next action: the record is
/// written next exactly where it changed, the state file is deleted next
/// exactly where the engine turns to that, and the record changes in no
/// other way than by one path or, once the state file is deleted, by being
/// emptied.
pub open spec fn step_shape(h: HandlerView, e: EventView) -> bool {
    let (h2, a2) = handler_next(h, e);
    &&& h2.phase is Saving <==> a2 is SaveState
    &&& h2.phase is Dropping <==> a2 is RemoveStateFile
    &&& a2 matches ActionView::SaveState { paths } ==> paths == h2.state
    &&& h2.state == h.state || h2.phase is Saving || (h.phase is Dropping && e is Done
        && h2.state.len() == 0)
    &&& h.phase is Saving && e is Done ==> h2.state == h.state
}

/// Every step has that shape.
pub proof fn lemma_step_shape(h: HandlerView, e: EventView)
    ensures
        step_shape(h, e),
{
    match h.phase {
        Phase::Idle => {},
        Phase::Mounting(stage) => {
            assert(step_shape(h, e));
        },
        Phase::Moving(stage) => {
            match located(h, h.index) {
                Some((original, place)) => {
                    if h.job == Job::Backup {
                        lemma_with_entry(h.state, original);
                        assert(step_shape(h, e));
                    } else {
                        lemma_without_entry(h.state, original);
                        assert(step_shape(h, e));
                    }
                },
                None => {},
            }
        },
        Phase::Saving => {
            assert(step_shape(h, e));
        },
        Phase::Dropping => {
            assert(step_shape(h, e));
        },
        Phase::Unmounting(stage) => {
            assert(step_shape(h, e));
        },
    }
}

/// One action in the ideal world keeps the engine, the world and the next
/// action fitting together.
pub proof fn lemma_step_keeps_coherent(h: HandlerView, w: World, a: ActionView)
    requires
        coherent(h, w, a),
    ensures
        ({
            let (w2, e) = world_reply(w, a);
            let (h2, a2) = handler_next(h, e);
            coherent(h2, w2, a2)
        }),
{
    let (w2, e) = world_reply(w, a);
    lemma_step_shape(h, e);
    let (h2, a2) = handler_next(h, e);
    assert(step_shape(h, e));
    assert(w2.saved == match a {
        ActionView::SaveState { paths } => Some(paths),
        ActionView::RemoveStateFile => None,
        _ => w.saved,
    });
    assert(a is SaveState ==> e is Done);
    assert(a is RemoveStateFile ==> e is Done);
    if !(h2.phase is Saving) {
        if a is SaveState {
            assert(h2.state == h.state);
        } else if a is RemoveStateFile {
            assert(h.phase is Dropping);
            assert(h2.state.len() == 0);
        } else {
            assert(in_step(h, w));
        }
    }
}

/// The state file keeps step with the record: where it holds the record
/// when a job starts, it holds the record whenever the job has ended, and
/// between any two paths of the job.
pub proof fn lemma_run_keeps_coherent(h: HandlerView, w: World, a: ActionView, n: nat)
    requires
        coherent(h, w, a),
    ensures
        ({
            let (h2, w2, a2) = run(h, w, a, n);
            &&& coherent(h2, w2, a2)
            &&& (a2 is Finish || a2 is Nothing) ==> in_step(h2, w2)
        }),
    decreases n,
{
    if !(n == 0 || a is Finish || a is Nothing) {
        let (w2, e) = world_reply(w, a);
        let (h2, a2) = handler_next(h, e);
        lemma_step_keeps_coherent(h, w, a);
        lemma_run_keeps_coherent(h2, w2, a2, (n - 1) as nat);
    }
}

/// Every job starts with the engine, the world and the first action fitting
/// together, where the state file holds the record.
pub proof fn lemma_jobs_start_coherent(h: HandlerView, w: World, paths: Seq<Seq<char>>)
    requires
        in_step(h, w),
    ensures
        ({
            let (h1, a1) = handler_next(
                assigned(h, Job::Backup, paths, Phase::Mounting(VolumeStage::Begin)),
                EventView::Start,
            );
            coherent(h1, w, a1)
        }),
        ({
            let (h1, a1) = entered(assigned(h, Job::Restore, paths, Phase::Idle), 0);
            coherent(h1, w, a1)
        }),
        ({
            let (h1, a1) = entered(assigned(h, Job::RestoreAll, paths, Phase::Idle), 0);
            coherent(h1, w, a1)
        }),
        coherent(
            assigned(h, Job::Clean, Seq::empty(), Phase::Dropping),
            w,
            ActionView::RemoveStateFile,
        ),
{
}

/// The place of a path on the volume lies under the volume's directory,
/// which lies under the mount directory.
pub proof fn lemma_place_under_volume(h: HandlerView, i: int)
    ensures
        match (located(h, i), resolved(h.mount_path, h.home, h.cwd)) {
            (Some((original, place)), Some(root)) => {
                let volume = joined(root, h.name);
                &&& volume.len() >= root.len()
                &&& volume.subrange(0, root.len() as int) == root
                &&& place.len() >= volume.len()
                &&& place.subrange(0, volume.len() as int) == volume
            },
            (Some(_), None) => false,
            (None, _) => true,
        },
{
    match (located(h, i), resolved(h.mount_path, h.home, h.cwd)) {
        (Some((original, place)), Some(root)) => {
            lemma_join_appends(root, h.name);
            lemma_join_appends(joined(root, h.name), original);
        },
        _ => {},
    }
}

} // verus!
