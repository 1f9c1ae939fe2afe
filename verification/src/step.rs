//! What the library asks its caller to perform, and what the caller reports.
//!
//! The library touches neither the filesystem nor the volume. It hands out
//! one `Action` at a time; the caller performs it and answers with an
//! `Event`, on which the library decides what comes next.

use vstd::prelude::*;
use vstd::string::*;
use crate::apperror::{AppError, FileSystemError};

verus! {

/// The kinds of failure.
#[derive(Debug, Clone, Copy, PartialEq, Eq, Structural)]
pub enum FailureKind {
    /// A path could not be made absolute.
    InvalidPath,
    /// The path to move is missing.
    NotExist,
    /// The path could not be examined.
    FailedToGetMetaData,
    /// The path to relocate is a symbolic link already.
    AlreadySymlink,
    /// The path to restore is no symbolic link.
    NotSymbolicLink,
    /// The volume could not be queried, attached, named or detached.
    DriverError,
    /// A directory, a move, a link or the state file failed.
    IOError,
}

/// A failure: its kind, and the path or the diagnostic that goes with it.
#[derive(Debug)]
pub struct Failure {
    pub kind: FailureKind,
    pub text: String,
}

/// A failure with its text as a sequence of characters.
pub struct FailureView {
    pub kind: FailureKind,
    pub text: Seq<char>,
}

impl View for Failure {
    type V = FailureView;

    open spec fn view(&self) -> FailureView {
        FailureView { kind: self.kind, text: self.text@ }
    }
}

/// The message shown for a failure of this kind with this text: for a path
/// that does not meet a precondition and for a failed command a headline
/// and the text, for a path that cannot be made absolute the headline
/// `Invalid Path: ` and the path, otherwise the text alone.
pub open spec fn message_of(kind: FailureKind, text: Seq<char>) -> Seq<char> {
    match kind {
        FailureKind::InvalidPath => "Invalid Path: "@ + text,
        FailureKind::NotExist => "File doesn't exist: "@ + text,
        FailureKind::FailedToGetMetaData => "Failed to get metadata: "@ + text,
        FailureKind::AlreadySymlink => "File is already symbolic link: "@ + text,
        FailureKind::NotSymbolicLink => "File is not symbolic link: "@ + text,
        FailureKind::DriverError => "FailedCommand: "@ + text,
        FailureKind::IOError => text,
    }
}

impl Failure {
    /// The failure as an error about a path, where it is one.
    pub fn file_system_error(&self) -> (r: Option<FileSystemError>)
        ensures
            match self.kind {
                FailureKind::NotExist => r matches Some(FileSystemError::NotExist(p)) && p@
                    == self.text@,
                FailureKind::FailedToGetMetaData => r matches Some(
                    FileSystemError::FailedToGetMetaData(p),
                ) && p@ == self.text@,
                FailureKind::NotSymbolicLink => r matches Some(FileSystemError::NotSymbolicLink(p))
                    && p@ == self.text@,
                FailureKind::AlreadySymlink => r matches Some(
                    FileSystemError::FileIsAlreadySymbolicLink(p),
                ) && p@ == self.text@,
                _ => r is None,
            },
    {
        match self.kind {
            FailureKind::NotExist => Some(FileSystemError::NotExist(self.text.clone())),
            FailureKind::FailedToGetMetaData => Some(
                FileSystemError::FailedToGetMetaData(self.text.clone()),
            ),
            FailureKind::NotSymbolicLink => Some(
                FileSystemError::NotSymbolicLink(self.text.clone()),
            ),
            FailureKind::AlreadySymlink => Some(
                FileSystemError::FileIsAlreadySymbolicLink(self.text.clone()),
            ),
            _ => None,
        }
    }

    /// The failure as a failed command of the driver, where it is one.
    pub fn command_error(&self) -> (r: Option<AppError>)
        ensures
            match self.kind {
                FailureKind::DriverError => r matches Some(AppError::CommandError(out)) && out@
                    == self.text@,
                _ => r is None,
            },
    {
        match self.kind {
            FailureKind::DriverError => Some(AppError::CommandError(self.text.clone())),
            _ => None,
        }
    }

    /// The message shown for this failure.
    pub fn message(&self) -> (s: String)
        ensures
            s@ == message_of(self.kind, self.text@),
    {
        match self.file_system_error() {
            Some(e) => {
                return e.message();
            },
            None => {},
        }
        match self.command_error() {
            Some(e) => {
                return e.message();
            },
            None => {},
        }
        match self.kind {
            FailureKind::InvalidPath => String::from_str("Invalid Path: ").concat(
                self.text.as_str(),
            ),
            _ => self.text.clone(),
        }
    }
}

/// How a job ended.
#[derive(Debug)]
pub enum Outcome {
    /// Everything asked for was done and recorded.
    Completed,
    /// Nothing on disk was changed by the step that failed: safe to retry.
    FailedBeforeCommit(Failure),
    /// The step that failed came after content was moved or a link was
    /// removed: the disk and the record may disagree.
    FailedAfterPartialMutation(Failure),
}

pub enum OutcomeView {
    Completed,
    FailedBeforeCommit(FailureView),
    FailedAfterPartialMutation(FailureView),
}

impl View for Outcome {
    type V = OutcomeView;

    open spec fn view(&self) -> OutcomeView {
        match *self {
            Outcome::Completed => OutcomeView::Completed,
            Outcome::FailedBeforeCommit(f) => OutcomeView::FailedBeforeCommit(f@),
            Outcome::FailedAfterPartialMutation(f) => OutcomeView::FailedAfterPartialMutation(f@),
        }
    }
}

/// One operation for the caller to perform.
#[derive(Debug)]
pub enum Action {
    /// Ask the driver whether a volume of this name is mounted; answer with
    /// `Event::Answer`.
    VolumeExists { name: String },
    /// Have the driver create a backing store of this size; answer with
    /// `Event::Handle` and the device it gave.
    Attach { size: isize },
    /// Have the driver format the device and give it the name.
    EraseVolume { name: String, mount_point: String },
    /// Have the driver detach the volume of this name.
    Detach { name: String },
    /// Ask whether the path exists; answer with `Event::Answer`.
    PathExists { path: String },
    /// Ask whether the path itself is a symbolic link; answer with
    /// `Event::Answer`.
    IsSymlink { path: String },
    /// Create the directory and every missing parent.
    CreateDirAll { path: String },
    /// Move the tree at `from` so that it becomes `to`.
    Relocate { from: String, to: String },
    /// Create a symbolic link at `link` that points to `target`.
    Symlink { target: String, link: String },
    /// Delete the file or link at the path.
    RemoveFile { path: String },
    /// Write the record of relocated paths to the state file.
    SaveState { paths: Vec<String> },
    /// Delete the state file where there is one.
    RemoveStateFile,
    /// The job has ended in this way.
    Finish(Outcome),
    /// No job is under way.
    Nothing,
}

pub enum ActionView {
    VolumeExists { name: Seq<char> },
    Attach { size: int },
    EraseVolume { name: Seq<char>, mount_point: Seq<char> },
    Detach { name: Seq<char> },
    PathExists { path: Seq<char> },
    IsSymlink { path: Seq<char> },
    CreateDirAll { path: Seq<char> },
    Relocate { from: Seq<char>, to: Seq<char> },
    Symlink { target: Seq<char>, link: Seq<char> },
    RemoveFile { path: Seq<char> },
    SaveState { paths: Seq<Seq<char>> },
    RemoveStateFile,
    Finish(OutcomeView),
    Nothing,
}

impl View for Action {
    type V = ActionView;

    open spec fn view(&self) -> ActionView {
        match *self {
            Action::VolumeExists { name } => ActionView::VolumeExists { name: name@ },
            Action::Attach { size } => ActionView::Attach { size: size as int },
            Action::EraseVolume { name, mount_point } => ActionView::EraseVolume {
                name: name@,
                mount_point: mount_point@,
            },
            Action::Detach { name } => ActionView::Detach { name: name@ },
            Action::PathExists { path } => ActionView::PathExists { path: path@ },
            Action::IsSymlink { path } => ActionView::IsSymlink { path: path@ },
            Action::CreateDirAll { path } => ActionView::CreateDirAll { path: path@ },
            Action::Relocate { from, to } => ActionView::Relocate { from: from@, to: to@ },
            Action::Symlink { target, link } => ActionView::Symlink {
                target: target@,
                link: link@,
            },
            Action::RemoveFile { path } => ActionView::RemoveFile { path: path@ },
            Action::SaveState { paths } => ActionView::SaveState {
                paths: paths@.map_values(|s: String| s@),
            },
            Action::RemoveStateFile => ActionView::RemoveStateFile,
            Action::Finish(o) => ActionView::Finish(o@),
            Action::Nothing => ActionView::Nothing,
        }
    }
}

/// What the caller reports of the action it was given.
#[derive(Debug)]
pub enum Event {
    /// Nothing has been performed yet.
    Start,
    /// The answer to a question.
    Answer(bool),
    /// The device that the driver attached.
    Handle(String),
    /// The operation succeeded.
    Done,
    /// The operation failed, with the diagnostic.
    Failed(String),
}

pub enum EventView {
    Start,
    Answer(bool),
    Handle(Seq<char>),
    Done,
    Failed(Seq<char>),
}

impl View for Event {
    type V = EventView;

    open spec fn view(&self) -> EventView {
        match *self {
            Event::Start => EventView::Start,
            Event::Answer(b) => EventView::Answer(b),
            Event::Handle(h) => EventView::Handle(h@),
            Event::Done => EventView::Done,
            Event::Failed(m) => EventView::Failed(m@),
        }
    }
}

/// The diagnostic that an event carries: that of a failure, else nothing.
pub open spec fn diagnostic(e: EventView) -> Seq<char> {
    match e {
        EventView::Failed(m) => m,
        _ => Seq::empty(),
    }
}

impl Event {
    /// The diagnostic that the event carries: that of a failure, else the
    /// empty string.
    pub fn diagnostic(&self) -> (s: String)
        ensures
            s@ == diagnostic(self@),
    {
        match self {
            Event::Failed(m) => m.clone(),
            _ => String::new(),
        }
    }
}

/// The action that ends a job before anything was changed.
pub open spec fn stop_before(kind: FailureKind, text: Seq<char>) -> ActionView {
    ActionView::Finish(OutcomeView::FailedBeforeCommit(FailureView { kind, text }))
}

/// The action that ends a job after a change that was not completed.
pub open spec fn stop_partial(kind: FailureKind, text: Seq<char>) -> ActionView {
    ActionView::Finish(OutcomeView::FailedAfterPartialMutation(FailureView { kind, text }))
}

impl Action {
    /// Ends a job before anything was changed.
    pub fn stop_before(kind: FailureKind, text: String) -> (a: Action)
        ensures
            a@ == stop_before(kind, text@),
    {
        Action::Finish(Outcome::FailedBeforeCommit(Failure { kind, text }))
    }

    /// Ends a job after a change that was not completed.
    pub fn stop_partial(kind: FailureKind, text: String) -> (a: Action)
        ensures
            a@ == stop_partial(kind, text@),
    {
        Action::Finish(Outcome::FailedAfterPartialMutation(Failure { kind, text }))
    }
}

} // verus!
