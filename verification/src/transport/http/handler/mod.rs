//! The handlers of the HAP-HTTP routes.

pub mod characteristics;
pub mod pair_setup;
pub mod pair_verify;
pub mod pairings;
