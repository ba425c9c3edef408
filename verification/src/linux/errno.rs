//! Error numbers of the kernel.

use vstd::prelude::*;

verus! {

/// Operation not permitted.
pub const EPERM: i32 = 1;

/// No such file or directory.
pub const ENOENT: i32 = 2;

} // verus!
