//! The Serial Number characteristic.

use vstd::prelude::*;
use crate::characteristic::value::Format;
use crate::characteristic::{plain, Characteristic, Inner, Perm};
use crate::hap_type::HapType;

verus! {

/// Serial Number Characteristic.
pub type SerialNumber = Characteristic;

/// The UUID of the Serial Number characteristic.
pub const UUID: &'static str = "00000030-0000-1000-8000-0026BB765291";

/// Creates a new Serial Number Characteristic.
pub fn new() -> (characteristic: SerialNumber)
    ensures
        characteristic@ == plain(UUID@, Format::String, seq![Perm::PairedRead]),
{
    let perms = vec![Perm::PairedRead];
    assert(perms@ =~= seq![Perm::PairedRead]);
    Characteristic::new(Inner::new(HapType::new(UUID), Format::String, perms))
}

} // verus!
