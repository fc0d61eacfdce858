//! The Manufacturer characteristic.

use vstd::prelude::*;
use crate::characteristic::value::Format;
use crate::characteristic::{plain, Characteristic, Inner, Perm};
use crate::hap_type::HapType;

verus! {

/// Manufacturer Characteristic.
pub type Manufacturer = Characteristic;

/// The UUID of the Manufacturer characteristic.
pub const UUID: &'static str = "00000020-0000-1000-8000-0026BB765291";

/// Creates a new Manufacturer Characteristic.
pub fn new() -> (characteristic: Manufacturer)
    ensures
        characteristic@ == plain(UUID@, Format::String, seq![Perm::PairedRead]),
{
    let perms = vec![Perm::PairedRead];
    assert(perms@ =~= seq![Perm::PairedRead]);
    Characteristic::new(Inner::new(HapType::new(UUID), Format::String, perms))
}

} // verus!
