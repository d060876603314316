pub mod core_cfg;
pub mod frontend_cfg;
pub mod memory_cfg;
pub mod regfile_cfg;
pub mod backend_cfg;
