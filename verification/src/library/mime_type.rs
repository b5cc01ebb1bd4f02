//! The library-side view of classification: a file named by its path whose
//! content type is derived from a bounded prefix of its bytes.

use vstd::prelude::*;

verus! {

/// A file under classification, named by its path.
#[derive(Debug, Clone)]
pub struct File {
    path: String,
}

impl View for File {
    type V = Seq<char>;

    /// A file under classification is its path.
    closed spec fn view(&self) -> Seq<char> {
        self.path@
    }
}

impl File {
    /// Wraps a path for classification.
    pub fn new(path: String) -> (f: File)
        ensures
            f@ == path@,
    {
        File { path }
    }

    /// The path the value was built with.
    pub fn path(&self) -> (p: &String)
        ensures
            p@ == self@,
    {
        &self.path
    }

    /// The content type of the file, classified from the leading bytes that
    /// the caller read (at most `MAX_FILE_READ_BYTES` of them).
    pub fn get_mime_type(&self, prefix: &[u8]) -> String {
        crate::mime_type::classify(prefix)
    }
}

} // verus!
