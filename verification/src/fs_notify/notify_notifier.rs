//! Decisions of the portable recursive-watch backend: which platforms it
//! supports and how its native event kinds map onto [`FsOp`]. The watch loop
//! itself, which blocks on the native watcher, runs outside the library.

use crate::fs_notify::FsOp;
use crate::text::str_eq;
use vstd::prelude::*;

verus! {

/// Maps a native event kind onto the pipeline's operation set: a removal
/// keeps its meaning, everything else is an ordinary change.
pub fn convert_op(is_remove: bool) -> (op: FsOp)
    ensures
        op == (if is_remove {
            FsOp::Remove
        } else {
            FsOp::Other
        }),
{
    if is_remove {
        FsOp::Remove
    } else {
        FsOp::Other
    }
}

/// The portable backend runs everywhere but on Windows.
pub fn is_supported(os: &str) -> (b: bool)
    ensures
        b == (os@ != "windows"@),
{
    let unsupported = str_eq(os, "windows");
    !unsupported
}

} // verus!
