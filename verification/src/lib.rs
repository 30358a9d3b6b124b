//! Credential and RPC layer of a Lightning Network wallet front-end.
//!
//! The library loads TLS-certificate, macaroon-token and node-address
//! configuration handed over by its caller, and prepares and interprets the
//! four unary RPC calls of the node (wallet balance, channel balance, node
//! info, invoice creation).  All decisions are verified; the caller performs
//! the file reads and the network transport and hands the outcomes back.

pub mod addr;
pub mod credentials;
pub mod errors;
pub mod hex;
pub mod loader;
pub mod qr;
pub mod rpc;
