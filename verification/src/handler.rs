//! The engine: it mounts the volume, relocates or restores a list of paths
//! one after the other, keeps the record of relocated paths, and takes the
//! volume down again.
//!
//! A job is started by `backup`, `restore`, `restore_all` or `clean`, each
//! of which returns the first action. After performing an action the caller
//! passes its report to `resume` and gets the next one, until the action is
//! `Finish`.

use vstd::prelude::*;
use crate::apppath::{AbsPath, PathEnv, joined, resolved};
use crate::ram::RAM;
use crate::state::{State, lemma_without_entry, with_entry, without_entry};
use crate::step::{
    Action, ActionView, Event, EventView, FailureKind, Outcome, OutcomeView, diagnostic,
    stop_before, stop_partial,
};
use crate::subcmd::{Backup, Restore, Stage, backup_next, restore_next};

verus! {

/// How far mounting or unmounting has come: the report that is awaited.
#[derive(Debug, Clone, Copy, PartialEq, Eq, Structural)]
pub enum VolumeStage {
    /// Nothing was asked yet.
    Begin,
    /// Whether the volume exists.
    Probing,
    /// The device of the new backing store.
    Attaching,
    /// The formatting and naming of the device.
    Erasing,
    /// The detaching of the volume.
    Detaching,
    /// Mounting or unmounting has ended.
    Finished,
}

/// The step of mounting: nothing is attached where the volume exists;
/// otherwise a backing store is attached, then formatted and named.
pub open spec fn mount_next(name: Seq<char>, size: int, stage: VolumeStage, event: EventView) -> (
    VolumeStage,
    ActionView,
) {
    match stage {
        VolumeStage::Begin => (VolumeStage::Probing, ActionView::VolumeExists { name }),
        VolumeStage::Probing => match event {
            EventView::Answer(true) => (
                VolumeStage::Finished,
                ActionView::Finish(OutcomeView::Completed),
            ),
            EventView::Answer(false) => (VolumeStage::Attaching, ActionView::Attach { size }),
            _ => (
                VolumeStage::Finished,
                stop_before(FailureKind::DriverError, diagnostic(event)),
            ),
        },
        VolumeStage::Attaching => match event {
            EventView::Handle(device) => (
                VolumeStage::Erasing,
                ActionView::EraseVolume { name, mount_point: device },
            ),
            _ => (
                VolumeStage::Finished,
                stop_before(FailureKind::DriverError, diagnostic(event)),
            ),
        },
        VolumeStage::Erasing => match event {
            EventView::Done => (VolumeStage::Finished, ActionView::Finish(OutcomeView::Completed)),
            _ => (
                VolumeStage::Finished,
                stop_partial(FailureKind::DriverError, diagnostic(event)),
            ),
        },
        _ => (VolumeStage::Finished, ActionView::Nothing),
    }
}

/// The step of unmounting: nothing is detached where the volume does not
/// exist.
pub open spec fn unmount_next(name: Seq<char>, stage: VolumeStage, event: EventView) -> (
    VolumeStage,
    ActionView,
) {
    match stage {
        VolumeStage::Begin => (VolumeStage::Probing, ActionView::VolumeExists { name }),
        VolumeStage::Probing => match event {
            EventView::Answer(false) => (
                VolumeStage::Finished,
                ActionView::Finish(OutcomeView::Completed),
            ),
            EventView::Answer(true) => (VolumeStage::Detaching, ActionView::Detach { name }),
            _ => (
                VolumeStage::Finished,
                stop_before(FailureKind::DriverError, diagnostic(event)),
            ),
        },
        VolumeStage::Detaching => match event {
            EventView::Done => (VolumeStage::Finished, ActionView::Finish(OutcomeView::Completed)),
            _ => (
                VolumeStage::Finished,
                stop_before(FailureKind::DriverError, diagnostic(event)),
            ),
        },
        _ => (VolumeStage::Finished, ActionView::Nothing),
    }
}

/// What a job does.
#[derive(Debug, Clone, Copy, PartialEq, Eq, Structural)]
pub enum Job {
    /// Mount the volume, then relocate each path.
    Backup,
    /// Restore each path.
    Restore,
    /// Restore each path, then delete the state file and unmount.
    RestoreAll,
    /// Delete the state file and unmount.
    Clean,
}

/// Where a job stands.
#[derive(Debug, Clone, Copy, PartialEq, Eq, Structural)]
pub enum Phase {
    /// No job is under way.
    Idle,
    /// The volume is being mounted.
    Mounting(VolumeStage),
    /// The path at the index is being relocated or restored.
    Moving(Stage),
    /// The record is being written after the path at the index.
    Saving,
    /// The state file is being deleted.
    Dropping,
    /// The volume is being unmounted.
    Unmounting(VolumeStage),
}

/// The engine as a mathematical value.
pub struct HandlerView {
    pub name: Seq<char>,
    pub size: int,
    pub mount_path: Seq<char>,
    pub home: Option<Seq<char>>,
    pub cwd: Option<Seq<char>>,
    pub state: Seq<Seq<char>>,
    pub job: Job,
    pub paths: Seq<Seq<char>>,
    pub index: int,
    pub phase: Phase,
}

impl HandlerView {
    /// The index lies within the paths, and on a path while one is in work.
    pub open spec fn wf(self) -> bool {
        &&& 0 <= self.index <= self.paths.len()
        &&& (self.phase is Moving || self.phase is Saving) ==> self.index < self.paths.len()
    }
}

/// The absolute form of the path at `i` and its place on the volume: the
/// mount directory, the volume's name, and under them the whole original
/// path. `None` where one of the two cannot be made absolute.
pub open spec fn located(h: HandlerView, i: int) -> Option<(Seq<char>, Seq<char>)> {
    match (resolved(h.paths[i], h.home, h.cwd), resolved(h.mount_path, h.home, h.cwd)) {
        (Some(original), Some(root)) => Some((original, joined(joined(root, h.name), original))),
        _ => None,
    }
}

/// The job ends with this action.
pub open spec fn ended(h: HandlerView, action: ActionView) -> (HandlerView, ActionView) {
    (HandlerView { phase: Phase::Idle, ..h }, action)
}

/// Every path is done: a full restore goes on to delete the state file,
/// any other job is complete.
pub open spec fn wound_up(h: HandlerView) -> (HandlerView, ActionView) {
    match h.job {
        Job::RestoreAll => (HandlerView { phase: Phase::Dropping, ..h }, ActionView::RemoveStateFile),
        _ => ended(h, ActionView::Finish(OutcomeView::Completed)),
    }
}

/// The job turns to the path at `i`, or winds up where none is left.
pub open spec fn entered(h: HandlerView, i: int) -> (HandlerView, ActionView) {
    let h = HandlerView { index: i, ..h };
    if i >= h.paths.len() {
        wound_up(h)
    } else {
        match located(h, i) {
            Some((original, place)) => (
                HandlerView { phase: Phase::Moving(Stage::Exists), ..h },
                ActionView::PathExists { path: original },
            ),
            None => ended(h, stop_before(FailureKind::InvalidPath, h.paths[i])),
        }
    }
}

/// The path at the index is done: a backup records it, a restore strikes
/// it. Where that changes the record the record is written next; otherwise
/// the job turns to the next path.
pub open spec fn recorded(h: HandlerView, original: Seq<char>) -> (HandlerView, ActionView) {
    let state = if h.job == Job::Backup {
        with_entry(h.state, original)
    } else {
        without_entry(h.state, original)
    };
    if h.state.contains(original) == (h.job == Job::Backup) {
        entered(h, h.index + 1)
    } else {
        (
            HandlerView { state, phase: Phase::Saving, ..h },
            ActionView::SaveState { paths: state },
        )
    }
}

/// The step of the engine: what it becomes on a report, and what it asks
/// for next.
pub open spec fn handler_next(h: HandlerView, e: EventView) -> (HandlerView, ActionView) {
    match h.phase {
        Phase::Idle => (h, ActionView::Nothing),
        Phase::Mounting(stage) => {
            let (stage, action) = mount_next(h.name, h.size, stage, e);
            match action {
                ActionView::Finish(OutcomeView::Completed) => entered(h, 0),
                ActionView::Finish(_) => ended(h, action),
                ActionView::Nothing => ended(h, action),
                _ => (HandlerView { phase: Phase::Mounting(stage), ..h }, action),
            }
        },
        Phase::Moving(stage) => match located(h, h.index) {
            Some((original, place)) => {
                let (stage, action) = if h.job == Job::Backup {
                    backup_next(original, place, stage, e)
                } else {
                    restore_next(place, original, stage, e)
                };
                match action {
                    ActionView::Finish(OutcomeView::Completed) => recorded(h, original),
                    ActionView::Finish(_) => ended(h, action),
                    ActionView::Nothing => ended(h, action),
                    _ => (HandlerView { phase: Phase::Moving(stage), ..h }, action),
                }
            },
            None => ended(h, stop_before(FailureKind::InvalidPath, h.paths[h.index])),
        },
        Phase::Saving => match e {
            EventView::Done => entered(h, h.index + 1),
            _ => ended(h, stop_partial(FailureKind::IOError, diagnostic(e))),
        },
        Phase::Dropping => match e {
            EventView::Done => (
                HandlerView {
                    state: Seq::empty(),
                    phase: Phase::Unmounting(VolumeStage::Probing),
                    ..h
                },
                ActionView::VolumeExists { name: h.name },
            ),
            _ => ended(h, stop_before(FailureKind::IOError, diagnostic(e))),
        },
        Phase::Unmounting(stage) => {
            let (stage, action) = unmount_next(h.name, stage, e);
            match action {
                ActionView::Finish(_) => ended(h, action),
                ActionView::Nothing => ended(h, action),
                _ => (HandlerView { phase: Phase::Unmounting(stage), ..h }, action),
            }
        },
    }
}

/// The engine with a new job on the given paths.
pub open spec fn assigned(h: HandlerView, job: Job, paths: Seq<Seq<char>>, phase: Phase) -> HandlerView {
    HandlerView { job, paths, index: 0, phase, ..h }
}

/// The engine at rest, with no paths in work.
pub open spec fn idle(
    name: Seq<char>,
    size: int,
    mount_path: Seq<char>,
    home: Option<Seq<char>>,
    cwd: Option<Seq<char>>,
    state: Seq<Seq<char>>,
) -> HandlerView {
    HandlerView {
        name,
        size,
        mount_path,
        home,
        cwd,
        state,
        job: Job::Clean,
        paths: Seq::empty(),
        index: 0,
        phase: Phase::Idle,
    }
}

/// The engine: the volume, the record, the surroundings, and the job under
/// way.
#[derive(Debug)]
pub struct Handler {
    ram: RAM,
    state: State,
    env: PathEnv,
    job: Job,
    paths: Vec<String>,
    index: usize,
    phase: Phase,
}

impl View for Handler {
    type V = HandlerView;

    closed spec fn view(&self) -> HandlerView {
        HandlerView {
            name: self.ram.name@,
            size: self.ram.size as int,
            mount_path: self.ram.mount_path@,
            home: self.env.home_dir(),
            cwd: self.env.work_dir(),
            state: self.state@,
            job: self.job,
            paths: self.paths@.map_values(|s: String| s@),
            index: self.index as int,
            phase: self.phase,
        }
    }
}

impl Handler {
    /// The engine is well formed when its view is.
    pub open spec fn wf(&self) -> bool {
        self@.wf()
    }

    /// An idle engine for the volume, with the record as it was loaded.
    pub fn new(ram: RAM, state: State, env: PathEnv) -> (h: Handler)
        ensures
            h.wf(),
            h@ == idle(
                ram.name@,
                ram.size as int,
                ram.mount_path@,
                env.home_dir(),
                env.work_dir(),
                state@,
            ),
    {
        let h = Handler {
            ram,
            state,
            env,
            job: Job::Clean,
            paths: Vec::new(),
            index: 0,
            phase: Phase::Idle,
        };
        assert(h@.paths =~= Seq::<Seq<char>>::empty());
        h
    }

    /// The record of relocated paths.
    pub fn state(&self) -> (s: &State)
        ensures
            s@ == self@.state,
    {
        &self.state
    }

    /// The volume.
    pub fn ram(&self) -> (r: &RAM)
        ensures
            r.name@ == self@.name,
            r.size == self@.size,
            r.mount_path@ == self@.mount_path,
    {
        &self.ram
    }

    /// Whether no job is under way.
    pub fn is_idle(&self) -> (b: bool)
        ensures
            b == (self@.phase == Phase::Idle),
    {
        match self.phase {
            Phase::Idle => true,
            _ => false,
        }
    }

    /// One step of mounting the volume.
    pub fn mount(ram: &RAM, stage: VolumeStage, event: &Event) -> (r: (VolumeStage, Action))
        ensures
            r.0 == mount_next(ram.name@, ram.size as int, stage, event@).0,
            r.1@ == mount_next(ram.name@, ram.size as int, stage, event@).1,
    {
        match stage {
            VolumeStage::Begin => (
                VolumeStage::Probing,
                Action::VolumeExists { name: ram.name.clone() },
            ),
            VolumeStage::Probing => match event {
                Event::Answer(true) => (VolumeStage::Finished, Action::Finish(Outcome::Completed)),
                Event::Answer(false) => (VolumeStage::Attaching, Action::Attach { size: ram.size }),
                _ => (
                    VolumeStage::Finished,
                    Action::stop_before(FailureKind::DriverError, event.diagnostic()),
                ),
            },
            VolumeStage::Attaching => match event {
                Event::Handle(device) => (
                    VolumeStage::Erasing,
                    Action::EraseVolume { name: ram.name.clone(), mount_point: device.clone() },
                ),
                _ => (
                    VolumeStage::Finished,
                    Action::stop_before(FailureKind::DriverError, event.diagnostic()),
                ),
            },
            VolumeStage::Erasing => match event {
                Event::Done => (VolumeStage::Finished, Action::Finish(Outcome::Completed)),
                _ => (
                    VolumeStage::Finished,
                    Action::stop_partial(FailureKind::DriverError, event.diagnostic()),
                ),
            },
            _ => (VolumeStage::Finished, Action::Nothing),
        }
    }

    /// One step of unmounting the volume.
    pub fn unmount(ram: &RAM, stage: VolumeStage, event: &Event) -> (r: (VolumeStage, Action))
        ensures
            r.0 == unmount_next(ram.name@, stage, event@).0,
            r.1@ == unmount_next(ram.name@, stage, event@).1,
    {
        match stage {
            VolumeStage::Begin => (
                VolumeStage::Probing,
                Action::VolumeExists { name: ram.name.clone() },
            ),
            VolumeStage::Probing => match event {
                Event::Answer(false) => (VolumeStage::Finished, Action::Finish(Outcome::Completed)),
                Event::Answer(true) => (
                    VolumeStage::Detaching,
                    Action::Detach { name: ram.name.clone() },
                ),
                _ => (
                    VolumeStage::Finished,
                    Action::stop_before(FailureKind::DriverError, event.diagnostic()),
                ),
            },
            VolumeStage::Detaching => match event {
                Event::Done => (VolumeStage::Finished, Action::Finish(Outcome::Completed)),
                _ => (
                    VolumeStage::Finished,
                    Action::stop_before(FailureKind::DriverError, event.diagnostic()),
                ),
            },
            _ => (VolumeStage::Finished, Action::Nothing),
        }
    }

    fn locate(&self, i: usize) -> (r: Option<(AbsPath, AbsPath)>)
        requires
            i < self@.paths.len(),
        ensures
            match located(self@, i as int) {
                Some((original, place)) => r matches Some(p) && p.0@ == original && p.1@ == place,
                None => r is None,
            },
    {
        let original = match AbsPath::new(self.paths[i].as_str(), &self.env) {
            Ok(a) => a,
            Err(_) => {
                return None;
            },
        };
        let root = match AbsPath::new(self.ram.mount_path.as_str(), &self.env) {
            Ok(a) => a,
            Err(_) => {
                return None;
            },
        };
        let place = root.join(self.ram.name.as_str()).join(original.as_str());
        Some((original, place))
    }

    fn end(&mut self, action: Action) -> (a: Action)
        requires
            old(self)@.index <= old(self)@.paths.len(),
        ensures
            (final(self)@, a@) == ended(old(self)@, action@),
            final(self).wf(),
    {
        self.phase = Phase::Idle;
        action
    }

    fn wind_up(&mut self) -> (a: Action)
        requires
            old(self)@.index <= old(self)@.paths.len(),
        ensures
            (final(self)@, a@) == wound_up(old(self)@),
            final(self).wf(),
    {
        match self.job {
            Job::RestoreAll => {
                self.phase = Phase::Dropping;
                Action::RemoveStateFile
            },
            _ => {
                self.phase = Phase::Idle;
                Action::Finish(Outcome::Completed)
            },
        }
    }

    fn enter(&mut self, i: usize) -> (a: Action)
        requires
            i <= old(self)@.paths.len(),
        ensures
            (final(self)@, a@) == entered(old(self)@, i as int),
            final(self).wf(),
    {
        self.index = i;
        if i >= self.paths.len() {
            return self.wind_up();
        }
        match self.locate(i) {
            Some((original, _)) => {
                self.phase = Phase::Moving(Stage::Exists);
                Action::PathExists { path: original.to_string() }
            },
            None => {
                self.phase = Phase::Idle;
                Action::stop_before(FailureKind::InvalidPath, self.paths[i].clone())
            },
        }
    }

    fn record(&mut self, original: &AbsPath) -> (a: Action)
        requires
            old(self)@.index < old(self)@.paths.len(),
        ensures
            (final(self)@, a@) == recorded(old(self)@, original@),
            final(self).wf(),
    {
        let changed = match self.job {
            Job::Backup => self.state.add(original.as_str()),
            _ => self.state.remove(original.as_str()),
        };
        proof {
            lemma_without_entry(old(self)@.state, original@);
        }
        if changed {
            self.phase = Phase::Saving;
            Action::SaveState { paths: self.state.entries() }
        } else {
            assert(self.index < self.paths.len());
            let next: usize = self.index + 1;
            self.enter(next)
        }
    }

    fn resume_mounting(&mut self, stage: VolumeStage, event: &Event) -> (a: Action)
        requires
            old(self).wf(),
            old(self)@.phase == Phase::Mounting(stage),
        ensures
            (final(self)@, a@) == handler_next(old(self)@, event@),
            final(self).wf(),
    {
        let (stage, action) = Handler::mount(&self.ram, stage, event);
        match action {
            Action::Finish(Outcome::Completed) => self.enter(0),
            Action::Finish(_) => self.end(action),
            Action::Nothing => self.end(action),
            _ => {
                self.phase = Phase::Mounting(stage);
                action
            },
        }
    }

    fn resume_moving(&mut self, stage: Stage, event: &Event) -> (a: Action)
        requires
            old(self).wf(),
            old(self)@.phase == Phase::Moving(stage),
        ensures
            (final(self)@, a@) == handler_next(old(self)@, event@),
            final(self).wf(),
    {
        assert(self.index < self.paths.len());
        match self.locate(self.index) {
            Some((original, place)) => {
                let (stage, action) = match self.job {
                    Job::Backup => Backup::backup(&original, &place, stage, event),
                    _ => Restore::restore(&place, &original, stage, event),
                };
                match action {
                    Action::Finish(Outcome::Completed) => self.record(&original),
                    Action::Finish(_) => self.end(action),
                    Action::Nothing => self.end(action),
                    _ => {
                        self.phase = Phase::Moving(stage);
                        action
                    },
                }
            },
            None => {
                let text = self.paths[self.index].clone();
                self.end(Action::stop_before(FailureKind::InvalidPath, text))
            },
        }
    }

    fn resume_saving(&mut self, event: &Event) -> (a: Action)
        requires
            old(self).wf(),
            old(self)@.phase == Phase::Saving,
        ensures
            (final(self)@, a@) == handler_next(old(self)@, event@),
            final(self).wf(),
    {
        assert(self.index < self.paths.len());
        match event {
            Event::Done => {
                let next: usize = self.index + 1;
                self.enter(next)
            },
            _ => self.end(Action::stop_partial(FailureKind::IOError, event.diagnostic())),
        }
    }

    fn resume_dropping(&mut self, event: &Event) -> (a: Action)
        requires
            old(self).wf(),
            old(self)@.phase == Phase::Dropping,
        ensures
            (final(self)@, a@) == handler_next(old(self)@, event@),
            final(self).wf(),
    {
        match event {
            Event::Done => {
                self.state = State::new();
                self.phase = Phase::Unmounting(VolumeStage::Probing);
                Action::VolumeExists { name: self.ram.name.clone() }
            },
            _ => self.end(Action::stop_before(FailureKind::IOError, event.diagnostic())),
        }
    }

    fn resume_unmounting(&mut self, stage: VolumeStage, event: &Event) -> (a: Action)
        requires
            old(self).wf(),
            old(self)@.phase == Phase::Unmounting(stage),
        ensures
            (final(self)@, a@) == handler_next(old(self)@, event@),
            final(self).wf(),
    {
        let (stage, action) = Handler::unmount(&self.ram, stage, event);
        match action {
            Action::Finish(_) => self.end(action),
            Action::Nothing => self.end(action),
            _ => {
                self.phase = Phase::Unmounting(stage);
                action
            },
        }
    }

    /// Takes the caller's report on the last action and gives the next
    /// action.
    pub fn resume(&mut self, event: &Event) -> (a: Action)
        requires
            old(self).wf(),
        ensures
            (final(self)@, a@) == handler_next(old(self)@, event@),
            final(self).wf(),
    {
        match self.phase {
            Phase::Idle => Action::Nothing,
            Phase::Mounting(stage) => self.resume_mounting(stage, event),
            Phase::Moving(stage) => self.resume_moving(stage, event),
            Phase::Saving => self.resume_saving(event),
            Phase::Dropping => self.resume_dropping(event),
            Phase::Unmounting(stage) => self.resume_unmounting(stage, event),
        }
    }

    /// Starts a backup of `sources`: the volume is mounted where it is not,
    /// then each path in turn is moved to the volume, replaced by a link and
    /// recorded. The job stops at the first path that fails.
    pub fn backup(&mut self, sources: Vec<String>) -> (a: Action)
        ensures
            (final(self)@, a@) == handler_next(
                assigned(
                    old(self)@,
                    Job::Backup,
                    sources@.map_values(|s: String| s@),
                    Phase::Mounting(VolumeStage::Begin),
                ),
                EventView::Start,
            ),
            final(self).wf(),
    {
        self.job = Job::Backup;
        self.paths = sources;
        self.index = 0;
        self.phase = Phase::Mounting(VolumeStage::Probing);
        Action::VolumeExists { name: self.ram.name.clone() }
    }

    /// Starts a restore of `targets`: each path in turn loses its link, gets
    /// its content back and is struck from the record. The job stops at the
    /// first path that fails.
    pub fn restore(&mut self, targets: Vec<String>) -> (a: Action)
        ensures
            (final(self)@, a@) == entered(
                assigned(
                    old(self)@,
                    Job::Restore,
                    targets@.map_values(|s: String| s@),
                    Phase::Idle,
                ),
                0,
            ),
            final(self).wf(),
    {
        self.job = Job::Restore;
        self.paths = targets;
        self.phase = Phase::Idle;
        self.enter(0)
    }

    /// Starts a restore of `targets` that ends by deleting the state file
    /// and unmounting the volume.
    pub fn restore_all(&mut self, targets: Vec<String>) -> (a: Action)
        ensures
            (final(self)@, a@) == entered(
                assigned(
                    old(self)@,
                    Job::RestoreAll,
                    targets@.map_values(|s: String| s@),
                    Phase::Idle,
                ),
                0,
            ),
            final(self).wf(),
    {
        self.job = Job::RestoreAll;
        self.paths = targets;
        self.phase = Phase::Idle;
        self.enter(0)
    }

    /// Starts the teardown: the state file is deleted, then the volume is
    /// unmounted where it exists.
    pub fn clean(&mut self) -> (a: Action)
        ensures
            final(self)@ == assigned(old(self)@, Job::Clean, Seq::empty(), Phase::Dropping),
            a@ == ActionView::RemoveStateFile,
            final(self).wf(),
    {
        self.job = Job::Clean;
        self.paths = Vec::new();
        self.index = 0;
        self.phase = Phase::Dropping;
        assert(self@.paths =~= Seq::<Seq<char>>::empty());
        Action::RemoveStateFile
    }
}

} // verus!
