//! The calls into outside crates that the library's logic makes, each with the
//! contract that the library relies on.

pub mod clock;
pub mod digest;
pub mod ed25519;
pub mod encoding;
pub mod mime;
