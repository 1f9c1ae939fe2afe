use ramup::application::Application;
use ramup::apppath::{AbsPath, PathEnv};
use ramup::cfg::Config;
use ramup::handler::{Handler, VolumeStage};
use ramup::ram::RAM;
use ramup::ramup::Ramup;
use ramup::state::State;
use ramup::step::{Action, Event, FailureKind, Outcome};
use ramup::subcmd::{Backup, Restore, Stage};
use std::collections::{BTreeMap, BTreeSet};

/// A filesystem and a volume driver held in memory.
struct World {
    volumes: BTreeSet<String>,
    attached: usize,
    erased: usize,
    detached: usize,
    real: BTreeMap<String, Vec<String>>,
    links: BTreeMap<String, String>,
    dirs: Vec<String>,
    saved: Option<Vec<String>>,
    fail: Option<&'static str>,
    log: Vec<&'static str>,
}

impl World {
    fn new() -> World {
        World {
            volumes: BTreeSet::new(),
            attached: 0,
            erased: 0,
            detached: 0,
            real: BTreeMap::new(),
            links: BTreeMap::new(),
            dirs: Vec::new(),
            saved: None,
            fail: None,
            log: Vec::new(),
        }
    }

    fn with_dir(path: &str, files: &[&str]) -> World {
        let mut w = World::new();
        w.real.insert(path.to_string(), files.iter().map(|f| f.to_string()).collect());
        w
    }

    fn present(&self, path: &str) -> bool {
        self.real.contains_key(path)
            || self.links.get(path).map(|t| self.real.contains_key(t)).unwrap_or(false)
    }

    fn perform(&mut self, action: &Action) -> Event {
        let kind = match action {
            Action::VolumeExists { .. } => "volume_exists",
            Action::Attach { .. } => "attach",
            Action::EraseVolume { .. } => "erasevolume",
            Action::Detach { .. } => "detach",
            Action::PathExists { .. } => "exists",
            Action::IsSymlink { .. } => "is_symlink",
            Action::CreateDirAll { .. } => "create_dir_all",
            Action::Relocate { .. } => "relocate",
            Action::Symlink { .. } => "symlink",
            Action::RemoveFile { .. } => "remove_file",
            Action::SaveState { .. } => "save",
            Action::RemoveStateFile => "remove_state_file",
            Action::Finish(_) => "finish",
            Action::Nothing => "nothing",
        };
        self.log.push(kind);
        if self.fail == Some(kind) {
            return Event::Failed(format!("{} failed", kind));
        }
        match action {
            Action::VolumeExists { name } => Event::Answer(self.volumes.contains(name)),
            Action::Attach { size } => {
                assert_eq!(*size, 8388607);
                self.attached += 1;
                Event::Handle("/dev/disk7".to_string())
            }
            Action::EraseVolume { name, mount_point } => {
                assert_eq!(mount_point, "/dev/disk7");
                self.erased += 1;
                self.volumes.insert(name.clone());
                Event::Done
            }
            Action::Detach { name } => {
                self.detached += 1;
                self.volumes.remove(name);
                Event::Done
            }
            Action::PathExists { path } => Event::Answer(self.present(path)),
            Action::IsSymlink { path } => Event::Answer(self.links.contains_key(path)),
            Action::CreateDirAll { path } => {
                self.dirs.push(path.clone());
                Event::Done
            }
            Action::Relocate { from, to } => match self.real.remove(from) {
                Some(content) => {
                    self.real.insert(to.clone(), content);
                    Event::Done
                }
                None => Event::Failed("nothing to move".to_string()),
            },
            Action::Symlink { target, link } => {
                self.links.insert(link.clone(), target.clone());
                Event::Done
            }
            Action::RemoveFile { path } => {
                self.links.remove(path);
                Event::Done
            }
            Action::SaveState { paths } => {
                self.saved = Some(paths.clone());
                Event::Done
            }
            Action::RemoveStateFile => {
                self.saved = None;
                Event::Done
            }
            Action::Finish(_) | Action::Nothing => Event::Start,
        }
    }
}

fn drive(handler: &mut Handler, world: &mut World, first: Action) -> Outcome {
    let mut action = first;
    for _ in 0..1000 {
        match action {
            Action::Finish(outcome) => return outcome,
            Action::Nothing => panic!("the engine has nothing to do"),
            other => {
                let event = world.perform(&other);
                action = handler.resume(&event);
            }
        }
    }
    panic!("the job does not end");
}

fn drive_all(ramup: &mut Ramup, world: &mut World, first: Action) -> Outcome {
    let mut action = first;
    for _ in 0..1000 {
        match action {
            Action::Finish(outcome) => return outcome,
            Action::Nothing => panic!("the engine has nothing to do"),
            other => {
                let event = world.perform(&other);
                action = ramup.resume(&event);
            }
        }
    }
    panic!("the job does not end");
}

fn completed(outcome: &Outcome) -> bool {
    matches!(outcome, Outcome::Completed)
}

fn before(outcome: &Outcome) -> (FailureKind, String) {
    match outcome {
        Outcome::FailedBeforeCommit(f) => (f.kind, f.text.clone()),
        other => panic!("expected a failure before commit, got {:?}", other),
    }
}

fn partial(outcome: &Outcome) -> (FailureKind, String) {
    match outcome {
        Outcome::FailedAfterPartialMutation(f) => (f.kind, f.text.clone()),
        other => panic!("expected a failure after a partial mutation, got {:?}", other),
    }
}

fn env() -> PathEnv {
    PathEnv { home: Some("/Users/u".to_string()), cwd: Some("/Users/u/work".to_string()) }
}

fn ram(mount_path: &str) -> RAM {
    RAM::new(8388607, "RAMDisk".to_string(), mount_path.to_string())
}

fn handler(mount_path: &str) -> Handler {
    Handler::new(ram(mount_path), State::new(), env())
}

fn paths(list: &[&str]) -> Vec<String> {
    list.iter().map(|p| p.to_string()).collect()
}

#[test]
fn handler_backup_and_restore() {
    let mount_str = "/tmp/ramup-source";
    let target_str = "/tmp/ramup-target";
    let mut world = World::with_dir(target_str, &[]);
    let mut handler = Handler::new(ram(mount_str), State::new(), env());

    // Backup
    let first = handler.backup(vec![target_str.to_string()]);
    assert!(completed(&drive(&mut handler, &mut world, first)));
    assert_eq!(world.links.contains_key(target_str), true);
    assert_eq!(world.real.contains_key(target_str), false);

    // Restore
    let first = handler.restore(vec![target_str.to_string()]);
    assert!(completed(&drive(&mut handler, &mut world, first)));
    assert_eq!(world.links.contains_key(target_str), false);
    assert_eq!(world.real.contains_key(target_str), true);

    let (_, action) = Handler::unmount(&ram(mount_str), VolumeStage::Begin, &Event::Start);
    assert!(matches!(action, Action::VolumeExists { ref name } if name == "RAMDisk"));
}

#[test]
fn ramup_backup_and_restore() {
    let mount_str = "/tmp/ramup-volume-ram";
    let target_str = "/tmp/ramup-target";
    let mut world = World::with_dir(target_str, &[]);
    let config = Config {
        ram: ram(mount_str),
        applications: vec![Application {
            name: "example".to_string(),
            restart: Some(false),
            paths: vec![target_str.to_string()],
        }],
    };
    let mut ramup = Ramup::from_file(config, State::new(), env());

    // Backup
    let first = ramup.backup_all();
    assert!(completed(&drive_all(&mut ramup, &mut world, first)));
    assert_eq!(world.links.contains_key(target_str), true);
    assert_eq!(world.real.contains_key(target_str), false);

    // Is Correct SymLink
    let sym_file_path = std::path::Path::new(mount_str)
        .join(&ramup.handler().ram().name)
        .join(std::path::Path::new(target_str).strip_prefix("/").unwrap());
    assert_eq!(sym_file_path.to_str().unwrap(), world.links[target_str]);

    // Restore
    let first = ramup.restore_all();
    assert!(completed(&drive_all(&mut ramup, &mut world, first)));
    assert_eq!(world.links.contains_key(target_str), false);
    assert_eq!(world.real.contains_key(target_str), true);

    let first = ramup.clean();
    assert!(completed(&drive_all(&mut ramup, &mut world, first)));
    assert!(world.volumes.is_empty());
}

#[test]
fn scenario_backup_all_then_restore_all() {
    let mut world = World::with_dir("/Users/u/app-data", &["file.txt"]);
    let config = Config {
        ram: RAM::new(8388607, "RAMDisk".to_string(), "/Volumes".to_string()),
        applications: vec![Application {
            name: "app".to_string(),
            restart: None,
            paths: vec!["/Users/u/app-data".to_string()],
        }],
    };
    let mut ramup = Ramup::from_file(config, State::new(), env());

    let first = ramup.backup_all();
    assert!(completed(&drive_all(&mut ramup, &mut world, first)));
    assert_eq!(world.links["/Users/u/app-data"], "/Volumes/RAMDisk/Users/u/app-data");
    assert_eq!(world.real["/Volumes/RAMDisk/Users/u/app-data"], vec!["file.txt"]);
    assert!(!world.real.contains_key("/Users/u/app-data"));
    assert_eq!(world.saved, Some(vec!["/Users/u/app-data".to_string()]));
    assert_eq!(world.dirs, vec!["/Volumes/RAMDisk/Users/u"]);
    assert!(world.volumes.contains("RAMDisk"));
    assert_eq!(ramup.handler().state().backup_paths, vec!["/Users/u/app-data"]);

    let first = ramup.restore_all();
    assert!(completed(&drive_all(&mut ramup, &mut world, first)));
    assert_eq!(world.real["/Users/u/app-data"], vec!["file.txt"]);
    assert!(world.links.is_empty());
    assert!(!world.real.contains_key("/Volumes/RAMDisk/Users/u/app-data"));
    assert!(world.volumes.is_empty());
    assert_eq!(world.detached, 1);
    assert_eq!(world.saved, None);
    assert_eq!(ramup.handler().state().len(), 0);
    assert!(ramup.handler().is_idle());
}

#[test]
fn one_path_of_a_run() {
    let mut world = World::with_dir("/Users/u/one", &["x"]);
    let config = Config { ram: ram("/Volumes"), applications: vec![] };
    let mut ramup = Ramup::from_file(config, State::new(), env());
    let first = ramup.backup("/Users/u/one".to_string());
    assert!(completed(&drive_all(&mut ramup, &mut world, first)));
    assert_eq!(world.links["/Users/u/one"], "/Volumes/RAMDisk/Users/u/one");
    let first = ramup.restore("/Users/u/one".to_string());
    assert!(completed(&drive_all(&mut ramup, &mut world, first)));
    assert_eq!(world.real["/Users/u/one"], vec!["x"]);
    assert!(world.volumes.contains("RAMDisk"));
}

#[test]
fn round_trip_keeps_the_content() {
    let mut world = World::with_dir("/Users/u/data", &["a", "b"]);
    let mut handler = handler("/Volumes");
    let first = handler.backup(paths(&["~/data"]));
    assert!(completed(&drive(&mut handler, &mut world, first)));
    assert!(handler.state().contains("/Users/u/data"));
    let first = handler.restore(paths(&["~/data"]));
    assert!(completed(&drive(&mut handler, &mut world, first)));
    assert_eq!(world.real["/Users/u/data"], vec!["a", "b"]);
    assert_eq!(world.real.len(), 1);
    assert!(world.links.is_empty());
    assert!(!handler.state().contains("/Users/u/data"));
    assert_eq!(world.saved, Some(vec![]));
}

#[test]
fn backup_of_a_missing_path_fails_and_records_nothing() {
    let mut world = World::new();
    let mut handler = handler("/Volumes");
    let first = handler.backup(paths(&["/Users/u/missing"]));
    let outcome = drive(&mut handler, &mut world, first);
    assert_eq!(before(&outcome), (FailureKind::NotExist, "/Users/u/missing".to_string()));
    assert_eq!(handler.state().len(), 0);
    assert_eq!(world.saved, None);
    assert!(world.links.is_empty());
    assert!(handler.is_idle());
}

#[test]
fn backup_of_a_link_fails() {
    let mut world = World::with_dir("/Volumes/RAMDisk/Users/u/data", &[]);
    world.links.insert("/Users/u/data".to_string(), "/Volumes/RAMDisk/Users/u/data".to_string());
    let mut handler = handler("/Volumes");
    let first = handler.backup(paths(&["/Users/u/data"]));
    let outcome = drive(&mut handler, &mut world, first);
    assert_eq!(before(&outcome), (FailureKind::AlreadySymlink, "/Users/u/data".to_string()));
    assert_eq!(handler.state().len(), 0);
    assert!(!world.log.contains(&"relocate"));
}

#[test]
fn restore_checks_its_preconditions() {
    let mut world = World::with_dir("/Users/u/real", &[]);
    let mut handler = handler("/Volumes");
    let first = handler.restore(paths(&["/Users/u/missing"]));
    let outcome = drive(&mut handler, &mut world, first);
    assert_eq!(before(&outcome), (FailureKind::NotExist, "/Users/u/missing".to_string()));

    let first = handler.restore(paths(&["/Users/u/real"]));
    let outcome = drive(&mut handler, &mut world, first);
    assert_eq!(before(&outcome), (FailureKind::NotSymbolicLink, "/Users/u/real".to_string()));
    assert_eq!(world.log, vec!["exists", "exists", "is_symlink"]);
}

#[test]
fn mounting_twice_attaches_once() {
    let mut world = World::with_dir("/a", &[]);
    world.real.insert("/b".to_string(), vec![]);
    let mut handler = handler("/Volumes");
    let first = handler.backup(paths(&["/a"]));
    assert!(completed(&drive(&mut handler, &mut world, first)));
    let first = handler.backup(paths(&["/b"]));
    assert!(completed(&drive(&mut handler, &mut world, first)));
    assert_eq!(world.attached, 1);
    assert_eq!(world.erased, 1);
    assert_eq!(world.volumes.len(), 1);
    assert_eq!(world.saved, Some(paths(&["/a", "/b"])));
}

#[test]
fn mount_steps() {
    let volume = ram("/Volumes");
    let (stage, action) = Handler::mount(&volume, VolumeStage::Begin, &Event::Start);
    assert_eq!(stage, VolumeStage::Probing);
    assert!(matches!(action, Action::VolumeExists { ref name } if name == "RAMDisk"));

    let (stage, action) = Handler::mount(&volume, VolumeStage::Probing, &Event::Answer(true));
    assert_eq!(stage, VolumeStage::Finished);
    assert!(matches!(action, Action::Finish(Outcome::Completed)));

    let (stage, action) = Handler::mount(&volume, VolumeStage::Probing, &Event::Answer(false));
    assert_eq!(stage, VolumeStage::Attaching);
    assert!(matches!(action, Action::Attach { size: 8388607 }));

    let (stage, action) =
        Handler::mount(&volume, VolumeStage::Attaching, &Event::Handle("/dev/disk2".to_string()));
    assert_eq!(stage, VolumeStage::Erasing);
    assert!(matches!(action, Action::EraseVolume { ref name, ref mount_point }
        if name == "RAMDisk" && mount_point == "/dev/disk2"));

    let (stage, action) = Handler::mount(&volume, VolumeStage::Erasing, &Event::Done);
    assert_eq!(stage, VolumeStage::Finished);
    assert!(matches!(action, Action::Finish(Outcome::Completed)));

    let (stage, action) =
        Handler::mount(&volume, VolumeStage::Erasing, &Event::Failed("no".to_string()));
    assert_eq!(stage, VolumeStage::Finished);
    assert_eq!(
        partial(&match action {
            Action::Finish(o) => o,
            other => panic!("{:?}", other),
        }),
        (FailureKind::DriverError, "no".to_string())
    );

    let (stage, action) = Handler::mount(&volume, VolumeStage::Finished, &Event::Done);
    assert_eq!(stage, VolumeStage::Finished);
    assert!(matches!(action, Action::Nothing));
}

#[test]
fn unmount_steps() {
    let volume = ram("/Volumes");
    let (stage, action) = Handler::unmount(&volume, VolumeStage::Probing, &Event::Answer(false));
    assert_eq!(stage, VolumeStage::Finished);
    assert!(matches!(action, Action::Finish(Outcome::Completed)));

    let (stage, action) = Handler::unmount(&volume, VolumeStage::Probing, &Event::Answer(true));
    assert_eq!(stage, VolumeStage::Detaching);
    assert!(matches!(action, Action::Detach { ref name } if name == "RAMDisk"));

    let (stage, action) = Handler::unmount(&volume, VolumeStage::Detaching, &Event::Done);
    assert_eq!(stage, VolumeStage::Finished);
    assert!(matches!(action, Action::Finish(Outcome::Completed)));
}

#[test]
fn backup_steps() {
    let e = PathEnv { home: None, cwd: None };
    let from = AbsPath::new("/Users/u/data", &e).unwrap();
    let to = AbsPath::new("/Volumes/RAMDisk/Users/u/data", &e).unwrap();

    let (stage, action) = Backup::backup(&from, &to, Stage::Begin, &Event::Start);
    assert_eq!(stage, Stage::Exists);
    assert!(matches!(action, Action::PathExists { ref path } if path == "/Users/u/data"));

    let (stage, action) = Backup::backup(&from, &to, Stage::Exists, &Event::Answer(true));
    assert_eq!(stage, Stage::Metadata);
    assert!(matches!(action, Action::IsSymlink { ref path } if path == "/Users/u/data"));

    let (stage, action) = Backup::backup(&from, &to, Stage::Metadata, &Event::Answer(false));
    assert_eq!(stage, Stage::Dirs);
    assert!(matches!(action, Action::CreateDirAll { ref path } if path == "/Volumes/RAMDisk/Users/u"));

    let (stage, action) = Backup::backup(&from, &to, Stage::Dirs, &Event::Done);
    assert_eq!(stage, Stage::Moving);
    assert!(matches!(action, Action::Relocate { ref from, ref to }
        if from == "/Users/u/data" && to == "/Volumes/RAMDisk/Users/u/data"));

    let (stage, action) = Backup::backup(&from, &to, Stage::Moving, &Event::Done);
    assert_eq!(stage, Stage::Linking);
    assert!(matches!(action, Action::Symlink { ref target, ref link }
        if target == "/Volumes/RAMDisk/Users/u/data" && link == "/Users/u/data"));

    let (stage, action) = Backup::backup(&from, &to, Stage::Linking, &Event::Done);
    assert_eq!(stage, Stage::Finished);
    assert!(matches!(action, Action::Finish(Outcome::Completed)));

    let (stage, action) = Backup::backup(&from, &to, Stage::Unlinking, &Event::Done);
    assert_eq!(stage, Stage::Finished);
    assert!(matches!(action, Action::Nothing));
}

#[test]
fn restore_steps() {
    let e = PathEnv { home: None, cwd: None };
    let to = AbsPath::new("/Users/u/data", &e).unwrap();
    let from = AbsPath::new("/Volumes/RAMDisk/Users/u/data", &e).unwrap();

    let (stage, action) = Restore::restore(&from, &to, Stage::Begin, &Event::Start);
    assert_eq!(stage, Stage::Exists);
    assert!(matches!(action, Action::PathExists { ref path } if path == "/Users/u/data"));

    let (stage, action) = Restore::restore(&from, &to, Stage::Exists, &Event::Answer(true));
    assert_eq!(stage, Stage::Metadata);
    assert!(matches!(action, Action::IsSymlink { ref path } if path == "/Users/u/data"));

    let (stage, action) = Restore::restore(&from, &to, Stage::Metadata, &Event::Answer(true));
    assert_eq!(stage, Stage::Unlinking);
    assert!(matches!(action, Action::RemoveFile { ref path } if path == "/Users/u/data"));

    let (stage, action) = Restore::restore(&from, &to, Stage::Unlinking, &Event::Done);
    assert_eq!(stage, Stage::Moving);
    assert!(matches!(action, Action::Relocate { ref from, ref to }
        if from == "/Volumes/RAMDisk/Users/u/data" && to == "/Users/u/data"));

    let (stage, action) = Restore::restore(&from, &to, Stage::Moving, &Event::Done);
    assert_eq!(stage, Stage::Finished);
    assert!(matches!(action, Action::Finish(Outcome::Completed)));
}

#[test]
fn failures_are_told_apart_by_what_was_changed() {
    let cases: [(&str, bool, FailureKind); 8] = [
        ("volume_exists", false, FailureKind::DriverError),
        ("attach", false, FailureKind::DriverError),
        ("erasevolume", true, FailureKind::DriverError),
        ("exists", false, FailureKind::IOError),
        ("create_dir_all", false, FailureKind::IOError),
        ("relocate", true, FailureKind::IOError),
        ("symlink", true, FailureKind::IOError),
        ("save", true, FailureKind::IOError),
    ];
    for (failing, changed, kind) in cases {
        let mut world = World::with_dir("/Users/u/data", &[]);
        world.fail = Some(failing);
        let mut handler = handler("/Volumes");
        let first = handler.backup(paths(&["/Users/u/data"]));
        let outcome = drive(&mut handler, &mut world, first);
        let got = if changed { partial(&outcome) } else { before(&outcome) };
        assert_eq!(got, (kind, format!("{} failed", failing)));
        assert_eq!(world.saved, None);
        assert!(handler.is_idle());
        if failing != "save" {
            assert_eq!(handler.state().len(), 0);
        }
    }

    let mut world = World::with_dir("/Users/u/data", &[]);
    world.fail = Some("is_symlink");
    let mut handler = handler("/Volumes");
    let first = handler.backup(paths(&["/Users/u/data"]));
    let outcome = drive(&mut handler, &mut world, first);
    assert_eq!(before(&outcome), (FailureKind::FailedToGetMetaData, "/Users/u/data".to_string()));
}

#[test]
fn restore_failures_are_told_apart() {
    for (failing, changed) in [("remove_file", false), ("relocate", true), ("save", true)] {
        let mut world = World::with_dir("/Volumes/RAMDisk/Users/u/data", &[]);
        world.links.insert("/Users/u/data".to_string(), "/Volumes/RAMDisk/Users/u/data".to_string());
        world.fail = Some(failing);
        let state = State { backup_paths: paths(&["/Users/u/data"]) };
        let mut handler = Handler::new(ram("/Volumes"), state, env());
        let first = handler.restore(paths(&["/Users/u/data"]));
        let outcome = drive(&mut handler, &mut world, first);
        let got = if changed { partial(&outcome) } else { before(&outcome) };
        assert_eq!(got, (FailureKind::IOError, format!("{} failed", failing)));
        if failing != "save" {
            assert!(handler.state().contains("/Users/u/data"));
        }
    }
}

#[test]
fn a_path_that_cannot_be_resolved_ends_the_job() {
    let mut world = World::new();
    let mut handler = Handler::new(ram("/Volumes"), State::new(), PathEnv { home: None, cwd: None });
    let first = handler.restore(paths(&["~/data"]));
    let outcome = drive(&mut handler, &mut world, first);
    assert_eq!(before(&outcome), (FailureKind::InvalidPath, "~/data".to_string()));
    assert!(world.log.is_empty());
}

#[test]
fn a_batch_stops_at_the_first_failure() {
    let mut world = World::with_dir("/a", &["1"]);
    world.real.insert("/c".to_string(), vec!["3".to_string()]);
    let mut handler = handler("/Volumes");
    let first = handler.backup(paths(&["/a", "/b", "/c"]));
    let outcome = drive(&mut handler, &mut world, first);
    assert_eq!(before(&outcome), (FailureKind::NotExist, "/b".to_string()));
    assert_eq!(handler.state().backup_paths, vec!["/a"]);
    assert_eq!(world.saved, Some(paths(&["/a"])));
    assert_eq!(world.links.len(), 1);
    assert!(world.real.contains_key("/c"));
}

#[test]
fn a_restore_stops_at_the_first_missing_path() {
    let mut world = World::new();
    for p in ["/a", "/c"] {
        let place = format!("/Volumes/RAMDisk{}", p);
        world.real.insert(place.clone(), vec![p.to_string()]);
        world.links.insert(p.to_string(), place);
    }
    let state = State { backup_paths: paths(&["/a", "/c"]) };
    let mut handler = Handler::new(ram("/Volumes"), state, env());
    let first = handler.restore(paths(&["/a", "/b", "/c"]));
    let outcome = drive(&mut handler, &mut world, first);
    assert_eq!(before(&outcome), (FailureKind::NotExist, "/b".to_string()));
    assert_eq!(world.real["/a"], vec!["/a"]);
    assert!(!world.links.contains_key("/a"));
    assert_eq!(world.links["/c"], "/Volumes/RAMDisk/c");
    assert_eq!(handler.state().backup_paths, vec!["/c"]);
    assert_eq!(world.saved, Some(paths(&["/c"])));
    assert_eq!(
        world.log,
        vec!["exists", "is_symlink", "remove_file", "relocate", "save", "exists"]
    );
}

#[test]
fn a_full_restore_of_several_paths_tears_down() {
    let mut world = World::new();
    world.volumes.insert("RAMDisk".to_string());
    for p in ["/a", "/b"] {
        let place = format!("/Volumes/RAMDisk{}", p);
        world.real.insert(place.clone(), vec![p.to_string()]);
        world.links.insert(p.to_string(), place);
    }
    world.saved = Some(paths(&["/a", "/b"]));
    let state = State { backup_paths: paths(&["/a", "/b"]) };
    let mut handler = Handler::new(ram("/Volumes"), state, env());
    let first = handler.restore_all(paths(&["/a", "/b"]));
    assert!(completed(&drive(&mut handler, &mut world, first)));
    assert_eq!(world.real["/a"], vec!["/a"]);
    assert_eq!(world.real["/b"], vec!["/b"]);
    assert_eq!(world.real.len(), 2);
    assert!(world.links.is_empty());
    assert_eq!(world.saved, None);
    assert!(world.volumes.is_empty());
    assert_eq!(handler.state().len(), 0);
    assert_eq!(
        world.log,
        vec![
            "exists", "is_symlink", "remove_file", "relocate", "save",
            "exists", "is_symlink", "remove_file", "relocate", "save",
            "remove_state_file", "volume_exists", "detach",
        ]
    );
}

#[test]
fn a_batch_walks_the_applications_in_order() {
    let mut world = World::with_dir("/a", &[]);
    world.real.insert("/b".to_string(), vec![]);
    world.real.insert("/c".to_string(), vec![]);
    let app = |name: &str, list: &[&str]| Application {
        name: name.to_string(),
        restart: None,
        paths: paths(list),
    };
    let config = Config {
        ram: ram("/Volumes"),
        applications: vec![app("one", &["/b", "/a"]), app("none", &[]), app("two", &["/c"])],
    };
    let mut ramup = Ramup::from_file(config, State::new(), env());
    let first = ramup.backup_all();
    assert!(completed(&drive_all(&mut ramup, &mut world, first)));
    assert_eq!(world.saved, Some(paths(&["/b", "/a", "/c"])));
    assert_eq!(world.attached, 1);
}

#[test]
fn an_empty_batch_completes() {
    let mut world = World::new();
    let mut handler = handler("/Volumes");
    let first = handler.backup(vec![]);
    assert!(completed(&drive(&mut handler, &mut world, first)));
    assert_eq!(world.log, vec!["volume_exists", "attach", "erasevolume"]);
    let first = handler.restore(vec![]);
    assert!(matches!(first, Action::Finish(Outcome::Completed)));
}

#[test]
fn a_recorded_path_is_not_saved_again() {
    let mut world = World::with_dir("/a", &[]);
    let state = State { backup_paths: paths(&["/a"]) };
    let mut handler = Handler::new(ram("/Volumes"), state, env());
    let first = handler.backup(paths(&["/a"]));
    assert!(completed(&drive(&mut handler, &mut world, first)));
    assert!(!world.log.contains(&"save"));
    assert_eq!(handler.state().backup_paths, vec!["/a"]);
}

#[test]
fn clean_deletes_the_state_file_and_unmounts() {
    let mut world = World::new();
    world.volumes.insert("RAMDisk".to_string());
    world.saved = Some(paths(&["/a"]));
    let state = State { backup_paths: paths(&["/a"]) };
    let mut handler = Handler::new(ram("/Volumes"), state, env());
    let first = handler.clean();
    assert!(matches!(first, Action::RemoveStateFile));
    assert!(completed(&drive(&mut handler, &mut world, first)));
    assert_eq!(world.saved, None);
    assert!(world.volumes.is_empty());
    assert_eq!(world.log, vec!["remove_state_file", "volume_exists", "detach"]);
    assert_eq!(handler.state().len(), 0);

    let first = handler.clean();
    assert!(completed(&drive(&mut handler, &mut world, first)));
    assert_eq!(world.detached, 1);
}

#[test]
fn failures_have_messages() {
    let mut world = World::new();
    let mut handler = handler("/Volumes");
    let first = handler.backup(paths(&["/missing"]));
    match drive(&mut handler, &mut world, first) {
        Outcome::FailedBeforeCommit(f) => {
            assert_eq!(f.message(), "File doesn't exist: /missing");
            assert!(f.command_error().is_none());
            assert_eq!(f.file_system_error().unwrap().message(), "File doesn't exist: /missing");
        }
        other => panic!("{:?}", other),
    }
    let failure = |kind: FailureKind| ramup::step::Failure { kind, text: "t".to_string() };
    assert_eq!(failure(FailureKind::InvalidPath).message(), "Invalid Path: t");
    assert_eq!(failure(FailureKind::FailedToGetMetaData).message(), "Failed to get metadata: t");
    assert_eq!(failure(FailureKind::AlreadySymlink).message(), "File is already symbolic link: t");
    assert_eq!(failure(FailureKind::NotSymbolicLink).message(), "File is not symbolic link: t");
    assert_eq!(failure(FailureKind::DriverError).message(), "FailedCommand: t");
    assert_eq!(failure(FailureKind::IOError).message(), "t");
    assert!(failure(FailureKind::IOError).file_system_error().is_none());
    assert_eq!(failure(FailureKind::DriverError).command_error().unwrap().message(), "FailedCommand: t");
}

#[test]
fn an_idle_engine_has_nothing_to_do() {
    let mut handler = handler("/Volumes");
    assert!(handler.is_idle());
    assert!(matches!(handler.resume(&Event::Done), Action::Nothing));
    assert_eq!(Event::Failed("x".to_string()).diagnostic(), "x");
    assert_eq!(Event::Done.diagnostic(), "");
}
