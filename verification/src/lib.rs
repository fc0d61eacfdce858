//! Core of a HomeKit Accessory Protocol (HAP) accessory server.
//!
//! The library holds the accessory data model with its instance ids, the
//! accessory list that the controllers read, write and subscribe to, the
//! pairing protocols, the encrypted session layer and the rules of the HTTP
//! routes. It works on plain values: bytes in, bytes out. Sockets, files,
//! the clock and the source of randomness belong to the program around it.
//!
//! Every function is verified against its contract. The contracts of the
//! functions in [`cryptography`], and of the few wrappers beside the code
//! that needs them, are taken on trust: they say what the outside crates
//! compute.

pub mod accessory;
pub mod aead;
pub mod bytes;
pub mod characteristic;
pub mod config;
pub mod cryptography;
pub mod db;
pub mod error;
pub mod event;
pub mod generator;
pub mod hap_type;
pub mod json;
pub mod pairing;
pub mod protocol;
pub mod service;
pub mod srp;
pub mod text;
pub mod tlv;
pub mod transport;
