//! The configuration data that drives a run: a set of named libraries, each
//! pairing watched directories, an optional MIME filter, and a command
//! template, plus an optional watch-mode setting.
//!
//! Reading and parsing a configuration file is the surrounding program's job;
//! the library receives the parsed values.

use vstd::prelude::*;

verus! {

/// One library's filter: the directories it owns and, optionally, the MIME
/// type patterns that a file's classified type must match.
#[derive(Debug, Clone)]
pub struct Filter {
    pub directories: Vec<String>,
    pub mime_type_regexes: Option<Vec<String>>,
}

/// One library: the command template to run and the filter that selects the
/// files it applies to.
#[derive(Debug, Clone)]
pub struct Libraries {
    pub command: String,
    pub filter: Filter,
}

/// The watch-mode settings: the minimum number of seconds between two
/// command runs for the same path.
#[derive(Debug, Clone)]
pub struct FsWatch {
    pub min_command_exec_freq: Option<u64>,
}

/// A whole configuration: the libraries by name, and the watch settings.
#[derive(Debug, Clone)]
pub struct Config {
    pub libraries: Vec<(String, Libraries)>,
    pub fs_watch: Option<FsWatch>,
}

} // verus!
