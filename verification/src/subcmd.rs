//! The two transactions on one path: moving it to the volume and leaving a
//! link behind, and taking the link away and moving the content back.
//!
//! Each is a sequence of questions and operations. A step takes the stage
//! that was reached and the caller's report, and gives the next stage with
//! the next action.

use vstd::prelude::*;
use crate::apppath::{AbsPath, parent_of};
use crate::step::{
    Action, ActionView, Event, EventView, FailureKind, Outcome, OutcomeView, diagnostic,
    stop_before, stop_partial,
};

verus! {

/// How far the transaction on one path has come: the report that is
/// awaited.
#[derive(Debug, Clone, Copy, PartialEq, Eq, Structural)]
pub enum Stage {
    /// Nothing was asked yet.
    Begin,
    /// Whether the path exists.
    Exists,
    /// Whether the path is a symbolic link.
    Metadata,
    /// The parent directories on the volume.
    Dirs,
    /// The removal of the link.
    Unlinking,
    /// The move of the tree.
    Moving,
    /// The creation of the link.
    Linking,
    /// The transaction has ended.
    Finished,
}

/// The step of a backup of `from` to `to`.
///
/// The path must exist and must not be a link. Then the parent of `to` is
/// created, the tree is moved and the link is put in its place. A failure up
/// to the creation of the directories leaves the original as it was; a
/// failure of the move or of the link does not.
pub open spec fn backup_next(from: Seq<char>, to: Seq<char>, stage: Stage, event: EventView) -> (
    Stage,
    ActionView,
) {
    match stage {
        Stage::Begin => (Stage::Exists, ActionView::PathExists { path: from }),
        Stage::Exists => match event {
            EventView::Answer(true) => (Stage::Metadata, ActionView::IsSymlink { path: from }),
            EventView::Answer(false) => (Stage::Finished, stop_before(FailureKind::NotExist, from)),
            _ => (Stage::Finished, stop_before(FailureKind::IOError, diagnostic(event))),
        },
        Stage::Metadata => match event {
            EventView::Answer(false) => match parent_of(to) {
                Some(dir) => (Stage::Dirs, ActionView::CreateDirAll { path: dir }),
                None => (Stage::Finished, stop_before(FailureKind::InvalidPath, to)),
            },
            EventView::Answer(true) => (
                Stage::Finished,
                stop_before(FailureKind::AlreadySymlink, from),
            ),
            _ => (Stage::Finished, stop_before(FailureKind::FailedToGetMetaData, from)),
        },
        Stage::Dirs => match event {
            EventView::Done => (Stage::Moving, ActionView::Relocate { from, to }),
            _ => (Stage::Finished, stop_before(FailureKind::IOError, diagnostic(event))),
        },
        Stage::Moving => match event {
            EventView::Done => (Stage::Linking, ActionView::Symlink { target: to, link: from }),
            _ => (Stage::Finished, stop_partial(FailureKind::IOError, diagnostic(event))),
        },
        Stage::Linking => match event {
            EventView::Done => (Stage::Finished, ActionView::Finish(OutcomeView::Completed)),
            _ => (Stage::Finished, stop_partial(FailureKind::IOError, diagnostic(event))),
        },
        _ => (Stage::Finished, ActionView::Nothing),
    }
}

/// The step of a restore of the content at `from` to its place `to`.
///
/// The path `to` must exist and be a link. Then the link is removed and the
/// tree is moved back. A failure up to the removal leaves everything as it
/// was; a failure of the move leaves the place empty.
pub open spec fn restore_next(from: Seq<char>, to: Seq<char>, stage: Stage, event: EventView) -> (
    Stage,
    ActionView,
) {
    match stage {
        Stage::Begin => (Stage::Exists, ActionView::PathExists { path: to }),
        Stage::Exists => match event {
            EventView::Answer(true) => (Stage::Metadata, ActionView::IsSymlink { path: to }),
            EventView::Answer(false) => (Stage::Finished, stop_before(FailureKind::NotExist, to)),
            _ => (Stage::Finished, stop_before(FailureKind::IOError, diagnostic(event))),
        },
        Stage::Metadata => match event {
            EventView::Answer(true) => (Stage::Unlinking, ActionView::RemoveFile { path: to }),
            EventView::Answer(false) => (
                Stage::Finished,
                stop_before(FailureKind::NotSymbolicLink, to),
            ),
            _ => (Stage::Finished, stop_before(FailureKind::FailedToGetMetaData, to)),
        },
        Stage::Unlinking => match event {
            EventView::Done => (Stage::Moving, ActionView::Relocate { from, to }),
            _ => (Stage::Finished, stop_before(FailureKind::IOError, diagnostic(event))),
        },
        Stage::Moving => match event {
            EventView::Done => (Stage::Finished, ActionView::Finish(OutcomeView::Completed)),
            _ => (Stage::Finished, stop_partial(FailureKind::IOError, diagnostic(event))),
        },
        _ => (Stage::Finished, ActionView::Nothing),
    }
}

/// Moves a path to the volume.
pub struct Backup {}

impl Backup {
    /// One step of the backup of `from` to `to`.
    pub fn backup(from: &AbsPath, to: &AbsPath, stage: Stage, event: &Event) -> (r: (
        Stage,
        Action,
    ))
        ensures
            r.0 == backup_next(from@, to@, stage, event@).0,
            r.1@ == backup_next(from@, to@, stage, event@).1,
    {
        match stage {
            Stage::Begin => (Stage::Exists, Action::PathExists { path: from.to_string() }),
            Stage::Exists => match event {
                Event::Answer(true) => (
                    Stage::Metadata,
                    Action::IsSymlink { path: from.to_string() },
                ),
                Event::Answer(false) => (
                    Stage::Finished,
                    Action::stop_before(FailureKind::NotExist, from.to_string()),
                ),
                _ => (
                    Stage::Finished,
                    Action::stop_before(FailureKind::IOError, event.diagnostic()),
                ),
            },
            Stage::Metadata => match event {
                Event::Answer(false) => match to.parent() {
                    Ok(dir) => (Stage::Dirs, Action::CreateDirAll { path: dir.to_string() }),
                    Err(_) => (
                        Stage::Finished,
                        Action::stop_before(FailureKind::InvalidPath, to.to_string()),
                    ),
                },
                Event::Answer(true) => (
                    Stage::Finished,
                    Action::stop_before(FailureKind::AlreadySymlink, from.to_string()),
                ),
                _ => (
                    Stage::Finished,
                    Action::stop_before(FailureKind::FailedToGetMetaData, from.to_string()),
                ),
            },
            Stage::Dirs => match event {
                Event::Done => (
                    Stage::Moving,
                    Action::Relocate { from: from.to_string(), to: to.to_string() },
                ),
                _ => (
                    Stage::Finished,
                    Action::stop_before(FailureKind::IOError, event.diagnostic()),
                ),
            },
            Stage::Moving => match event {
                Event::Done => (
                    Stage::Linking,
                    Action::Symlink { target: to.to_string(), link: from.to_string() },
                ),
                _ => (
                    Stage::Finished,
                    Action::stop_partial(FailureKind::IOError, event.diagnostic()),
                ),
            },
            Stage::Linking => match event {
                Event::Done => (Stage::Finished, Action::Finish(Outcome::Completed)),
                _ => (
                    Stage::Finished,
                    Action::stop_partial(FailureKind::IOError, event.diagnostic()),
                ),
            },
            _ => (Stage::Finished, Action::Nothing),
        }
    }
}

/// Moves a path back from the volume.
pub struct Restore {}

impl Restore {
    /// One step of the restore of the content at `from` to its place `to`.
    pub fn restore(from: &AbsPath, to: &AbsPath, stage: Stage, event: &Event) -> (r: (
        Stage,
        Action,
    ))
        ensures
            r.0 == restore_next(from@, to@, stage, event@).0,
            r.1@ == restore_next(from@, to@, stage, event@).1,
    {
        match stage {
            Stage::Begin => (Stage::Exists, Action::PathExists { path: to.to_string() }),
            Stage::Exists => match event {
                Event::Answer(true) => (Stage::Metadata, Action::IsSymlink { path: to.to_string() }),
                Event::Answer(false) => (
                    Stage::Finished,
                    Action::stop_before(FailureKind::NotExist, to.to_string()),
                ),
                _ => (
                    Stage::Finished,
                    Action::stop_before(FailureKind::IOError, event.diagnostic()),
                ),
            },
            Stage::Metadata => match event {
                Event::Answer(true) => (
                    Stage::Unlinking,
                    Action::RemoveFile { path: to.to_string() },
                ),
                Event::Answer(false) => (
                    Stage::Finished,
                    Action::stop_before(FailureKind::NotSymbolicLink, to.to_string()),
                ),
                _ => (
                    Stage::Finished,
                    Action::stop_before(FailureKind::FailedToGetMetaData, to.to_string()),
                ),
            },
            Stage::Unlinking => match event {
                Event::Done => (
                    Stage::Moving,
                    Action::Relocate { from: from.to_string(), to: to.to_string() },
                ),
                _ => (
                    Stage::Finished,
                    Action::stop_before(FailureKind::IOError, event.diagnostic()),
                ),
            },
            Stage::Moving => match event {
                Event::Done => (Stage::Finished, Action::Finish(Outcome::Completed)),
                _ => (
                    Stage::Finished,
                    Action::stop_partial(FailureKind::IOError, event.diagnostic()),
                ),
            },
            _ => (Stage::Finished, Action::Nothing),
        }
    }
}

} // verus!
