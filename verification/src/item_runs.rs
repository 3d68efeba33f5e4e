//! Which side an operation of an item machine changes.

use vstd::prelude::*;

use crate::ops::Op;

verus! {

/// The operation changes the local side.
pub open spec fn changes_local(op: Op) -> bool {
    ||| op is Download
    ||| op is RemoveTree
    ||| op is RemoveFile
    ||| op is CreateDir
    ||| op is CreateDirAll
}

/// The operation changes the remote side.
pub open spec fn changes_remote(op: Op) -> bool {
    ||| op is Upload
    ||| op is Push
    ||| op is Mkdir
    ||| op is Purge
    ||| op is DeleteFile
}

} // verus!
