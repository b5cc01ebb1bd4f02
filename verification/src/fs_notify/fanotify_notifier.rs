//! Decisions of the privileged whole-mount backend: which platforms it
//! supports and how a native event's flag set maps onto [`FsOp`]. The poll
//! loop that reads native events runs outside the library.

use crate::fs_notify::FsOp;
use crate::text::str_eq;
use vstd::prelude::*;

verus! {

/// Maps one native event's flags onto the pipeline's operation set: the
/// caller reports, per flag, whether it is a removal. Any removal flag makes
/// the whole event a removal.
pub fn convert_op(removal_flags: &Vec<bool>) -> (op: FsOp)
    ensures
        op == (if exists|i: int| 0 <= i < removal_flags@.len() && removal_flags@[i] {
            FsOp::Remove
        } else {
            FsOp::Other
        }),
{
    let mut i: usize = 0;
    while i < removal_flags.len()
        invariant
            i <= removal_flags@.len(),
            forall|k: int| 0 <= k < i ==> !removal_flags@[k],
        decreases removal_flags@.len() - i,
    {
        if removal_flags[i] {
            return FsOp::Remove;
        }
        i = i + 1;
    }
    FsOp::Other
}

/// The whole-mount backend exists only on Linux.
pub fn is_supported(os: &str) -> (b: bool)
    ensures
        b == (os@ == "linux"@),
{
    str_eq(os, "linux")
}

} // verus!
