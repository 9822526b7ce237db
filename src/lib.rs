//! Staging selection and commit-message assembly for a git workflow helper.
//!
//! The library reads the text that `git status --porcelain -u` prints, sorts
//! every entry into one category, and derives from that the files to stage,
//! the deletions to stage, the deletions already staged and the body of the
//! next commit message.

pub mod branch;
pub mod commit;
pub mod config;
pub mod errors;
pub mod exclude;
pub mod ignore;
pub mod performance;
pub mod staging;
pub mod status;
pub mod text;
pub mod utils;
