//! The Identify characteristic.

use vstd::prelude::*;
use crate::characteristic::value::Format;
use crate::characteristic::{plain, Characteristic, Inner, Perm};
use crate::hap_type::HapType;

verus! {

/// Identify Characteristic.
pub type Identify = Characteristic;

/// The UUID of the Identify characteristic.
pub const UUID: &'static str = "00000014-0000-1000-8000-0026BB765291";

/// Creates a new Identify Characteristic.
pub fn new() -> (characteristic: Identify)
    ensures
        characteristic@ == plain(UUID@, Format::Bool, seq![Perm::PairedWrite]),
{
    let perms = vec![Perm::PairedWrite];
    assert(perms@ =~= seq![Perm::PairedWrite]);
    Characteristic::new(Inner::new(HapType::new(UUID), Format::Bool, perms))
}

} // verus!
