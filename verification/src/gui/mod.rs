//! What the node's window sends to the network's middleware.

pub mod request_type;
