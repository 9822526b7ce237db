//! Error types of the library.

use vstd::prelude::*;

verus! {

/// Errors raised while working with the repository.
#[derive(Debug)]
pub enum GitError {
    /// An input/output failure during a git operation, with its message.
    IoError(String),
    RepositoryNotFound,
    CommandFailed { command: String, output: String },
    InvalidStatus { output: String },
    CommitMessageNotFound,
    GitignoreError { reason: String },
    CommitignoreError { reason: String },
    NoStagedChanges,
    DirtyWorkingDirectory,
    NoRemoteConfigured,
}

/// Errors raised while reading or writing the configuration.
#[derive(Debug)]
pub enum ConfigError {
    /// An input/output failure while accessing the configuration, with its message.
    IoError(String),
    ConfigNotFound,
    ConfigAlreadyExists,
    InvalidConfig,
    HomeDirNotFound,
    UnsupportedEditor { editor: String },
}

/// Main error type of the library.
#[derive(Debug)]
pub enum RonaError {
    Config(ConfigError),
    Git(GitError),
    /// An input/output failure, with its message.
    Io(String),
    InvalidInput(String),
    /// An exclude pattern that is not a valid glob pattern.
    InvalidPattern(String),
    UserCancelled,
    CommandFailed { command: String },
}

} // verus!
