//! The error kinds of the server.

use vstd::prelude::*;

verus! {

/// What can go wrong while a request is handled.
#[derive(Clone, Copy, Debug, PartialEq, Eq, Structural)]
pub enum Error {
    /// The request is answered with this HTTP status code, unchanged.
    HttpStatus(u16),
    /// A HAP status code, embedded per characteristic.
    HapStatus(i32),
    /// A TLV error code, embedded in a pairing response.
    PairingStatus(u8),
    /// A cryptographic failure; fatal for the session.
    Crypto,
    /// The persistent store could not be read or written.
    PersistenceIo,
    /// Malformed input on a session.
    Protocol,
}

} // verus!
