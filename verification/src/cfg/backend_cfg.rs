use vstd::prelude::*;

verus! {

/// Entries of the queue of instructions waiting to issue.
pub const RCU_ROB_SIZE: usize = 8;
/// Entries of the queue of committed instructions.
pub const RCU_RETIRE_BUFFER_SIZE: usize = 8;
/// Functional units that commit: branch, load-store, control-status, arithmetic.
pub const FU_NUM: usize = 4;
/// Instructions committed per cycle.
pub const FU_COMMIT_NUM: usize = 1;

} // verus!
