//! The Supported Audio Stream Configuration characteristic.

use vstd::prelude::*;
use crate::characteristic::value::Format;
use crate::characteristic::{plain, Characteristic, Inner, Perm};
use crate::hap_type::HapType;

verus! {

/// Supported Audio Stream Configuration Characteristic.
pub type SupportedAudioStreamConfiguration = Characteristic;

/// The UUID of the Supported Audio Stream Configuration characteristic.
pub const UUID: &'static str = "00000115-0000-1000-8000-0026BB765291";

/// Creates a new Supported Audio Stream Configuration Characteristic.
pub fn new() -> (characteristic: SupportedAudioStreamConfiguration)
    ensures
        characteristic@ == plain(UUID@, Format::Tlv8, seq![Perm::PairedRead]),
{
    let perms = vec![Perm::PairedRead];
    assert(perms@ =~= seq![Perm::PairedRead]);
    Characteristic::new(Inner::new(HapType::new(UUID), Format::Tlv8, perms))
}

} // verus!
