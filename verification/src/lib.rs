//! A verified core for a file-librarian: it watches or walks directories,
//! classifies files by content, matches them against per-library rules, and
//! prepares the shell commands that a thin unverified shell executes.
//!
//! The crate holds the decision logic: MIME-filter matching, command-template
//! rendering, debouncing of repeated notifications, and path containment.
//! Reading files, OS notification backends, and process spawning live outside
//! the library and hand it plain values.

pub mod config;
pub mod error;
pub mod fs_notify;
pub mod library;
pub mod mime_type;
pub mod template;
pub mod text;

use vstd::prelude::*;

verus! {

/// The diagnostic subcommands that the command-line surface offers.
#[derive(Debug, Clone)]
pub enum TestCommands {
    /// Report the MIME type that the classifier assigns to one file.
    Mime { file_path: String },
}

/// A request for one diagnostic run.
#[derive(Debug)]
pub struct Test {
    pub command: TestCommands,
}

/// Decides which diagnostic a `Test` request asks for: it yields the path of
/// the file whose MIME type is to be reported.
pub fn test(t: &Test) -> (file_path: &String)
    ensures
        t.command == (TestCommands::Mime { file_path: *file_path }),
{
    match &t.command {
        TestCommands::Mime { file_path } => file_path,
    }
}

/// Folds the per-library outcomes of one batch run: the run as a whole
/// fails exactly when some library's pass failed.
pub fn any_failed(results: &Vec<Result<u64, library::Error>>) -> (b: bool)
    ensures
        b == exists|i: int| 0 <= i < results@.len() && (#[trigger] results@[i]) is Err,
{
    let mut i: usize = 0;
    while i < results.len()
        invariant
            i <= results@.len(),
            forall|k: int| 0 <= k < i ==> !((#[trigger] results@[k]) is Err),
        decreases results@.len() - i,
    {
        if results[i].is_err() {
            return true;
        }
        i = i + 1;
    }
    false
}

} // verus!
