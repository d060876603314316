use vstd::prelude::*;

verus! {

/// 32 general registers and the program counter.
pub const APF_SIZE: usize = 33;
pub const CSRF_SIZE: usize = 4096;

pub const _MSTATUS_UIE_LOW: usize = 0;
pub const _MSTATUS_UIE: usize = 0x1;
pub const _MSTATUS_SIE_LOW: usize = 1;
pub const _MSTATUS_SIE: usize = 0x2;
pub const _MSTATUS_MIE_LOW: usize = 3;
pub const _MSTATUS_MIE: usize = 0x8;
pub const _MSTATUS_UPIE_LOW: usize = 4;
pub const _MSTATUS_UPIE: usize = 0x10;
pub const _MSTATUS_SPIE_LOW: usize = 5;
pub const _MSTATUS_SPIE: usize = 0x20;
pub const MSTATUS_MPIE_LOW: usize = 7;
pub const MSTATUS_MPIE: usize = 0x80;
pub const _MSTATUS_SPP_LOW: usize = 8;
pub const _MSTATUS_SPP: usize = 0x100;
pub const _MSTATUS_MPP_LOW: usize = 11;
pub const MSTATUS_MPP: usize = 0x1800;
pub const _MSTATUS_FS_LOW: usize = 13;
pub const _MSTATUS_FS: usize = 0x6000;
pub const _MSTATUS_XS_LOW: usize = 15;
pub const _MSTATUS_XS: usize = 0x1_8000;
pub const _MSTATUS_MPRV_LOW: usize = 17;
pub const _MSTATUS_MPRV: usize = 0x2_0000;
pub const _MSTATUS_SUM_LOW: usize = 18;
pub const _MSTATUS_SUM: usize = 0x4_0000;
pub const _MSTATUS_MXR_LOW: usize = 19;
pub const _MSTATUS_MXR: usize = 0x8_0000;
pub const _MSTATUS_TVM_LOW: usize = 20;
pub const _MSTATUS_TVM: usize = 0x10_0000;
pub const _MSTATUS_TW_LOW: usize = 21;
pub const _MSTATUS_TW: usize = 0x20_0000;
pub const _MSTATUS_TSR_LOW: usize = 22;
pub const _MSTATUS_TSR: usize = 0x40_0000;
pub const _MSTATUS_SD_LOW: usize = 63;
pub const _MSTATUS_SD: u64 = 0x8000_0000_0000_0000;

pub const _CSR_USTATUS_ADDRESS: u16 = 0x000;
pub const _CSR_FFLAGS_ADDRESS: u16 = 0x001;
pub const _CSR_FRM_ADDRESS: u16 = 0x002;
pub const _CSR_FCSR_ADDRESS: u16 = 0x003;
pub const _CSR_UIE_ADDRESS: u16 = 0x004;
pub const _CSR_UTVEC_ADDRESS: u16 = 0x005;
pub const _CSR_USCRATCH_ADDRESS: u16 = 0x040;
pub const _CSR_UEPC_ADDRESS: u16 = 0x041;
pub const _CSR_UCAUSE_ADDRESS: u16 = 0x042;
pub const _CSR_UTVAL_ADDRESS: u16 = 0x043;
pub const _CSR_UIP_ADDRESS: u16 = 0x044;
pub const _CSR_SSTATUS_ADDRESS: u16 = 0x100;
pub const _CSR_SEDELEG_ADDRESS: u16 = 0x102;
pub const _CSR_SIDELEG_ADDRESS: u16 = 0x103;
pub const _CSR_SIE_ADDRESS: u16 = 0x104;
pub const _CSR_STVEC_ADDRESS: u16 = 0x105;
pub const _CSR_SSCRATCH_ADDRESS: u16 = 0x140;
pub const _CSR_SEPC_ADDRESS: u16 = 0x141;
pub const _CSR_SCAUSE_ADDRESS: u16 = 0x142;
pub const _CSR_STVAL_ADDRESS: u16 = 0x143;
pub const _CSR_SIP_ADDRESS: u16 = 0x144;
pub const _CSR_SATP_ADDRESS: u16 = 0x180;
pub const CSR_MSTATUS_ADDRESS: u16 = 0x300;
pub const _CSR_MISA_ADDRESS: u16 = 0x301;
pub const _CSR_MEDELEG_ADDRESS: u16 = 0x302;
pub const _CSR_MIDELEG_ADDRESS: u16 = 0x303;
pub const _CSR_MIE_ADDRESS: u16 = 0x304;
pub const CSR_MTVEC_ADDRESS: u16 = 0x305;
pub const _CSR_MSCRATCH_ADDRESS: u16 = 0x340;
pub const CSR_MEPC_ADDRESS: u16 = 0x341;
pub const CSR_MCAUSE_ADDRESS: u16 = 0x342;
pub const _CSR_MTVAL_ADDRESS: u16 = 0x343;
pub const _CSR_MIP_ADDRESS: u16 = 0x344;
pub const _CSR_PMPCFG0_ADDRESS: u16 = 0x3a0;
pub const _CSR_PMPADDR0_ADDRESS: u16 = 0x3b0;
pub const _CSR_MCYCLE_ADDRESS: u16 = 0xb00;
pub const _CSR_CYCLE_ADDRESS: u16 = 0xc00;
pub const _CSR_TIME_ADDRESS: u16 = 0xc01;
pub const _CSR_INSERT_ADDRESS: u16 = 0xc02;
pub const _CSR_MHARTID_ADDRESS: u16 = 0xf14;

pub const _MIP_MEIP: u64 = 0x800;
pub const MIP_MTIP: u64 = 0x080;
pub const MIP_MSIP: u64 = 0x008;
pub const MIP_SEIP: u64 = 0x200;
pub const _MIP_STIP: u64 = 0x020;
pub const _MIP_SSIP: u64 = 0x002;

} // verus!
