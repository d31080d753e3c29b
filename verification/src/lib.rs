//! A file-hosting blockchain: blocks that carry file records or pool withdrawals,
//! hashed into a chain that nodes extend, check and replace.

pub mod blockchain;
pub mod gui;
pub mod http_server;
pub mod util;
pub mod primitives;
pub mod requests;
pub mod text;
