//! The transport of the accessory server.

pub mod http;
pub mod ip;
pub mod session;
