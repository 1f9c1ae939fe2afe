//! The whole run: every path of every application is relocated or
//! restored, with the volume mounted before and taken down after.

use vstd::prelude::*;
use crate::application::{Application, paths_of};
use crate::apppath::PathEnv;
use crate::cfg::Config;
use crate::handler::{
    Handler, HandlerView, Job, Phase, VolumeStage, assigned, entered, handler_next, idle,
};
use crate::state::State;
use crate::step::{Action, ActionView, Event, EventView};

verus! {

/// The paths of the first `n` applications, in their order.
pub open spec fn gathered(apps: Seq<Application>, n: int) -> Seq<Seq<char>>
    decreases n,
{
    if n <= 0 {
        Seq::empty()
    } else {
        gathered(apps, n - 1) + paths_of(apps[n - 1])
    }
}

/// The engine together with the applications of the configuration.
#[derive(Debug)]
pub struct Ramup {
    handler: Handler,
    applications: Vec<Application>,
}

impl Ramup {
    /// The engine as a mathematical value.
    pub closed spec fn engine(&self) -> HandlerView {
        self.handler@
    }

    /// The paths of all applications, in their order.
    pub closed spec fn paths(&self) -> Seq<Seq<char>> {
        gathered(self.applications@, self.applications@.len() as int)
    }

    /// The engine is well formed.
    pub open spec fn wf(&self) -> bool {
        self.engine().wf()
    }

    /// The run for a configuration and a record as they were loaded.
    pub fn from_file(config: Config, state: State, env: PathEnv) -> (r: Ramup)
        ensures
            r.wf(),
            r.engine() == idle(
                config.ram.name@,
                config.ram.size as int,
                config.ram.mount_path@,
                env.home_dir(),
                env.work_dir(),
                state@,
            ),
            r.paths() == gathered(config.applications@, config.applications@.len() as int),
    {
        Ramup { handler: Handler::new(config.ram, state, env), applications: config.applications }
    }

    /// The engine.
    pub fn handler(&self) -> (h: &Handler)
        ensures
            h@ == self.engine(),
    {
        &self.handler
    }

    fn all_paths(&self) -> (out: Vec<String>)
        ensures
            out@.map_values(|s: String| s@) == self.paths(),
    {
        let n: usize = self.applications.len();
        let mut out: Vec<String> = Vec::new();
        let mut i: usize = 0;
        while i < n
            invariant
                n == self.applications@.len(),
                i <= n,
                out@.map_values(|s: String| s@) == gathered(self.applications@, i as int),
            decreases n - i,
        {
            let app = &self.applications[i];
            let m: usize = app.paths.len();
            let mut j: usize = 0;
            while j < m
                invariant
                    n == self.applications@.len(),
                    i < n,
                    app == &self.applications@[i as int],
                    m == app.paths@.len(),
                    j <= m,
                    out@.map_values(|s: String| s@) == gathered(self.applications@, i as int)
                        + paths_of(*app).subrange(0, j as int),
                decreases m - j,
            {
                let ghost before = out@.map_values(|s: String| s@);
                out.push(app.paths[j].clone());
                assert(out@.map_values(|s: String| s@) =~= before.push(app.paths@[j as int]@));
                assert(paths_of(*app).subrange(0, j + 1) =~= paths_of(*app).subrange(
                    0,
                    j as int,
                ).push(app.paths@[j as int]@));
                assert(out@.map_values(|s: String| s@) =~= gathered(self.applications@, i as int)
                    + paths_of(*app).subrange(0, j + 1));
                j += 1;
            }
            assert(paths_of(*app).subrange(0, m as int) =~= paths_of(*app));
            i += 1;
        }
        out
    }

    /// Starts the backup of the one path `path`.
    pub fn backup(&mut self, path: String) -> (a: Action)
        ensures
            (final(self).engine(), a@) == handler_next(
                assigned(
                    old(self).engine(),
                    Job::Backup,
                    seq![path@],
                    Phase::Mounting(VolumeStage::Begin),
                ),
                EventView::Start,
            ),
            final(self).paths() == old(self).paths(),
            final(self).wf(),
    {
        let mut paths: Vec<String> = Vec::new();
        paths.push(path);
        assert(paths@.map_values(|s: String| s@) =~= seq![path@]);
        self.handler.backup(paths)
    }

    /// Starts the restore of the one path `path`.
    pub fn restore(&mut self, path: String) -> (a: Action)
        ensures
            (final(self).engine(), a@) == entered(
                assigned(old(self).engine(), Job::Restore, seq![path@], Phase::Idle),
                0,
            ),
            final(self).paths() == old(self).paths(),
            final(self).wf(),
    {
        let mut paths: Vec<String> = Vec::new();
        paths.push(path);
        assert(paths@.map_values(|s: String| s@) =~= seq![path@]);
        self.handler.restore(paths)
    }

    /// Starts the backup of every path of every application.
    pub fn backup_all(&mut self) -> (a: Action)
        ensures
            (final(self).engine(), a@) == handler_next(
                assigned(
                    old(self).engine(),
                    Job::Backup,
                    old(self).paths(),
                    Phase::Mounting(VolumeStage::Begin),
                ),
                EventView::Start,
            ),
            final(self).paths() == old(self).paths(),
            final(self).wf(),
    {
        let paths = self.all_paths();
        self.handler.backup(paths)
    }

    /// Starts the restore of every path of every application, after which
    /// the state file is deleted and the volume is unmounted.
    pub fn restore_all(&mut self) -> (a: Action)
        ensures
            (final(self).engine(), a@) == entered(
                assigned(old(self).engine(), Job::RestoreAll, old(self).paths(), Phase::Idle),
                0,
            ),
            final(self).paths() == old(self).paths(),
            final(self).wf(),
    {
        let paths = self.all_paths();
        self.handler.restore_all(paths)
    }

    /// Starts the teardown: the state file is deleted and the volume is
    /// unmounted.
    pub fn clean(&mut self) -> (a: Action)
        ensures
            final(self).engine() == assigned(
                old(self).engine(),
                Job::Clean,
                Seq::empty(),
                Phase::Dropping,
            ),
            a@ == ActionView::RemoveStateFile,
            final(self).paths() == old(self).paths(),
            final(self).wf(),
    {
        self.handler.clean()
    }

    /// Takes the caller's report on the last action and gives the next
    /// action.
    pub fn resume(&mut self, event: &Event) -> (a: Action)
        requires
            old(self).wf(),
        ensures
            (final(self).engine(), a@) == handler_next(old(self).engine(), event@),
            final(self).paths() == old(self).paths(),
            final(self).wf(),
    {
        self.handler.resume(event)
    }
}

} // verus!
