pub mod memory;
pub mod regfiles;
