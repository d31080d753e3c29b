//! Blocks, the records they carry, and the chain that holds them.

pub mod block;
pub mod block_infor;
pub mod blockchain;
pub mod file_infor;
pub mod file_types;
pub mod json;
pub mod laws;
pub mod pool_infor;
pub mod smart_contract_inter;
