pub mod fifo;
pub mod mux;
pub mod plru;
