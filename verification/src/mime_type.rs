//! Content-type classification. A file is classified by the leading bytes of
//! its content (magic numbers), never by its name. The caller reads a bounded
//! prefix of the file and hands the bytes in; the classifier maps them to a
//! MIME type string.

use vstd::prelude::*;
use vstd::string::StringExecFns;

verus! {

/// The errors of classification: the only failure is the caller's read of
/// the file, reported here so that every user of the module shares one
/// message for it.
#[derive(Debug, Clone, Copy)]
pub enum Error {
    /// The file could not be opened or read.
    Io,
}

impl Error {
    /// The line shown to an operator for this error.
    pub fn to_message(&self) -> (m: String)
        ensures
            m@ == "An IO error was thrown while trying to determine the MIME type of a file"@,
    {
        String::from_str("An IO error was thrown while trying to determine the MIME type of a file")
    }
}

/// How many leading bytes of a file the classifier needs at most: the magic
/// numbers that identify a content type sit at the front.
pub const MAX_FILE_READ_BYTES: u64 = 10240;

/// Relies on tree_magic::from_u8: maps content bytes to a MIME type string
/// by walking the shared-MIME type graph. The bundled magic definitions are
/// always loaded, so the walk always yields a type; but on platforms with a
/// system shared-MIME database the database's entries take part, so the
/// result can differ between machines and nothing is promised of it.
#[verifier::external_body]
pub(crate) fn classify(bytes: &[u8]) -> String {
    tree_magic::from_u8(bytes)
}

/// A file under classification, named by its path.
#[derive(Debug)]
pub struct File<'a> {
    path: &'a str,
}

impl<'a> View for File<'a> {
    type V = Seq<char>;

    /// A file under classification is its path.
    closed spec fn view(&self) -> Seq<char> {
        self.path@
    }
}

impl<'a> File<'a> {
    /// Wraps a path for classification.
    pub fn new(path: &'a str) -> (f: File<'a>)
        ensures
            f@ == path@,
    {
        File { path }
    }

    /// The path the value was built with.
    pub fn path(&self) -> (p: &str)
        ensures
            p@ == self@,
    {
        self.path
    }

    /// The content type of the file, classified from the leading bytes that
    /// the caller read (at most `MAX_FILE_READ_BYTES` of them); reading more
    /// of the file is never needed.
    pub fn get_mime_type(&self, prefix: &[u8]) -> String {
        classify(prefix)
    }
}

} // verus!
