//! Typed failures of the core.
use vstd::prelude::*;

verus! {

/// The kinds of failure the core distinguishes.
#[derive(Clone, Copy, PartialEq, Eq, Structural, Debug)]
pub enum ErrorKind {
    /// The path is not under any registered project root.
    NotAssociated,
    /// The directory is already associated with a project.
    AlreadyInitialized,
    /// A managed directory of that name already exists.
    NameCollision,
    /// The project is registered but its managed directory is missing.
    CorruptedProject,
    /// The registry references more projects than exist on disk.
    RegistryInconsistent,
    /// The registry file does not exist.
    RegistryMissing,
    /// The registry content is malformed.
    RegistryCorrupt,
    /// A project of that name is already registered.
    DuplicateName,
    /// A file path was expected but the path is a directory.
    IsDirectory,
    /// No managed entry exists for the file.
    NotTracked,
    /// The user-side path exists but is not a symlink.
    NotASymlink,
    /// A filesystem operation failed.
    Io,
}

/// A typed failure with a human-readable message.
#[derive(Debug)]
pub struct AppError {
    pub kind: ErrorKind,
    pub message: String,
}

impl AppError {
    pub fn new(kind: ErrorKind, message: &str) -> (r: AppError)
        ensures
            r.kind == kind,
            r.message@ == message@,
    {
        AppError { kind, message: message.to_owned() }
    }

    pub fn kind(&self) -> (k: ErrorKind)
        ensures
            k == self.kind,
    {
        self.kind
    }

    pub fn message(&self) -> (m: String)
        ensures
            m@ == self.message@,
    {
        self.message.clone()
    }
}

/// Failure of the application's first-run setup.
#[derive(Debug)]
pub struct InitError {
    pub message: String,
}

impl InitError {
    pub fn new(message: &str) -> (r: InitError)
        ensures
            r.message@ == message@,
    {
        InitError { message: message.to_owned() }
    }

    pub fn message(&self) -> (m: String)
        ensures
            m@ == self.message@,
    {
        self.message.clone()
    }
}

} // verus!
