//! The Model characteristic.

use vstd::prelude::*;
use crate::characteristic::value::Format;
use crate::characteristic::{plain, Characteristic, Inner, Perm};
use crate::hap_type::HapType;

verus! {

/// Model Characteristic.
pub type Model = Characteristic;

/// The UUID of the Model characteristic.
pub const UUID: &'static str = "00000021-0000-1000-8000-0026BB765291";

/// Creates a new Model Characteristic.
pub fn new() -> (characteristic: Model)
    ensures
        characteristic@ == plain(UUID@, Format::String, seq![Perm::PairedRead]),
{
    let perms = vec![Perm::PairedRead];
    assert(perms@ =~= seq![Perm::PairedRead]);
    Characteristic::new(Inner::new(HapType::new(UUID), Format::String, perms))
}

} // verus!
