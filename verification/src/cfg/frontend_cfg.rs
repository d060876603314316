use vstd::prelude::*;

verus! {

pub const BPU_ENABLE: bool = true;

pub const BTB_WIDTH: usize = 3;
/// The virtual address width.
pub const BTB_PC_WIDTH: usize = 39;
pub const BTB_PC_LOW: usize = 0;

pub const GSHARE_HISTORY_WIDTH: usize = 3;
pub const GSHARE_PC_WIDTH: usize = 0;
pub const GSHARE_PC_LOW: usize = 0;
pub const GSHARE_PC_DO_HASH: bool = false;
pub const A_CONST: u32 = 1;

} // verus!
