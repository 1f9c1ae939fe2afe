//! The failures that the library reports.

use vstd::prelude::*;
use vstd::string::*;

verus! {

/// Why a path could not be made absolute or has no parent.
#[derive(Debug, Clone, Copy, PartialEq, Eq, Structural)]
pub enum PathError {
    /// The home directory or the working directory was needed and is not
    /// known as an absolute path.
    InvalidPath,
    /// The path is a root.
    NoParent,
}

impl PathError {
    /// The message shown for this error.
    pub fn message(&self) -> (s: String)
        ensures
            s@ == match *self {
                PathError::InvalidPath => "Invalid Path"@,
                PathError::NoParent => "There isn't parent path"@,
            },
    {
        match self {
            PathError::InvalidPath => String::from_str("Invalid Path"),
            PathError::NoParent => String::from_str("There isn't parent path"),
        }
    }
}

/// A path that does not meet what a backup or a restore asks of it. Each
/// variant holds the path.
#[derive(Debug)]
pub enum FileSystemError {
    NotExist(String),
    FailedToGetMetaData(String),
    NotSymbolicLink(String),
    FileIsAlreadySymbolicLink(String),
}

impl FileSystemError {
    /// The path that the error is about.
    pub open spec fn path(&self) -> Seq<char> {
        match *self {
            FileSystemError::NotExist(p) => p@,
            FileSystemError::FailedToGetMetaData(p) => p@,
            FileSystemError::NotSymbolicLink(p) => p@,
            FileSystemError::FileIsAlreadySymbolicLink(p) => p@,
        }
    }

    /// The words that go before the path in the message.
    pub open spec fn headline(&self) -> Seq<char> {
        match *self {
            FileSystemError::NotExist(_) => "File doesn't exist: "@,
            FileSystemError::FailedToGetMetaData(_) => "Failed to get metadata: "@,
            FileSystemError::NotSymbolicLink(_) => "File is not symbolic link: "@,
            FileSystemError::FileIsAlreadySymbolicLink(_) => "File is already symbolic link: "@,
        }
    }

    /// The message shown for this error: the headline, then the path.
    pub fn message(&self) -> (s: String)
        ensures
            s@ == self.headline() + self.path(),
    {
        match self {
            FileSystemError::NotExist(p) => String::from_str("File doesn't exist: ").concat(
                p.as_str(),
            ),
            FileSystemError::FailedToGetMetaData(p) => String::from_str(
                "Failed to get metadata: ",
            ).concat(p.as_str()),
            FileSystemError::NotSymbolicLink(p) => String::from_str(
                "File is not symbolic link: ",
            ).concat(p.as_str()),
            FileSystemError::FileIsAlreadySymbolicLink(p) => String::from_str(
                "File is already symbolic link: ",
            ).concat(p.as_str()),
        }
    }
}

/// A command of the volume driver that failed, with what it printed.
#[derive(Debug)]
pub enum AppError {
    CommandError(String),
}

impl AppError {
    /// The message shown for this error.
    pub fn message(&self) -> (s: String)
        ensures
            s@ == match *self {
                AppError::CommandError(out) => "FailedCommand: "@ + out@,
            },
    {
        match self {
            AppError::CommandError(out) => String::from_str("FailedCommand: ").concat(out.as_str()),
        }
    }
}

} // verus!
