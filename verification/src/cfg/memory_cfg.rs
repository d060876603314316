use vstd::prelude::*;

verus! {

pub const MEMORY_WIDTH: u32 = 30;
/// `1 << MEMORY_WIDTH` bytes.
pub const MEMORY_SIZE: u32 = 0x4000_0000;

/// Bytes per line of a hex image: 128 bits.
pub const LOAD_FILE_LINE_SIZE: u32 = 16;

pub const ELF_START_PADDR: u64 = 0x8000_0000;
pub const TOHOST_PADDR: u64 = 0x8000_1000;

} // verus!
