//! Release notes from pull requests: the rules that turn loosely written settings and a
//! set of merged pull requests into migration notes, one file and one commit each.
//!
//! Nothing here touches the file system, the network or a repository. The library
//! validates and decides; the program around it reads, writes and commits, and reports
//! back how each step ended.
//!
//! - [`identifier`]: repository identifiers and release labels, and their grammars.
//! - [`identifier_proofs`]: what normalisation does on whole classes of inputs.
//! - [`path`]: resolving a path of which only a part exists yet.
//! - [`settings`]: assembling the settings of a run, all or nothing.
//! - [`git_client`]: the session on the working copy, and the steps of a commit.
//! - [`migration_note`]: the path, the content and the commit of each note.
//! - [`classes`], [`text`]: character classes and helpers on texts.

pub mod classes;
pub mod git_client;
pub mod identifier;
pub mod identifier_proofs;
pub mod migration_note;
pub mod path;
pub mod settings;
pub mod text;
