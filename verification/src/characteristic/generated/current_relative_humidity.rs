//! The Current Relative Humidity characteristic.

use vstd::prelude::*;
use crate::characteristic::value::{Format, Value, ValueView};
use crate::characteristic::{plain, Characteristic, CharacteristicView, Inner, Perm, Unit};
use crate::hap_type::HapType;

verus! {

/// Current Relative Humidity Characteristic.
pub type CurrentRelativeHumidity = Characteristic;

/// The UUID of the Current Relative Humidity characteristic.
pub const UUID: &'static str = "00000010-0000-1000-8000-0026BB765291";

/// The single-precision number 0.
pub const MIN_VALUE: u32 = 0x0000_0000;

/// The single-precision number 100.
pub const MAX_VALUE: u32 = 0x42c8_0000;

/// The single-precision number 1.
pub const STEP_VALUE: u32 = 0x3f80_0000;

/// The model of a new Current Relative Humidity characteristic: a readable
/// percentage between 0 and 100 in steps of 1 that notifies of its changes.
pub open spec fn new_model() -> CharacteristicView {
    CharacteristicView {
        unit: Some(Unit::Percentage),
        max_value: Some(ValueView::Float(MAX_VALUE)),
        min_value: Some(ValueView::Float(MIN_VALUE)),
        step_value: Some(ValueView::Float(STEP_VALUE)),
        ..plain(UUID@, Format::Float, seq![Perm::PairedRead, Perm::Events])
    }
}

/// Creates a new Current Relative Humidity Characteristic.
pub fn new() -> (characteristic: CurrentRelativeHumidity)
    ensures
        characteristic@ == new_model(),
{
    let perms = vec![Perm::PairedRead, Perm::Events];
    assert(perms@ =~= seq![Perm::PairedRead, Perm::Events]);
    let mut inner = Inner::new(HapType::new(UUID), Format::Float, perms);
    inner.unit = Some(Unit::Percentage);
    inner.max_value = Some(Value::Float(MAX_VALUE));
    inner.min_value = Some(Value::Float(MIN_VALUE));
    inner.step_value = Some(Value::Float(STEP_VALUE));
    Characteristic::new(inner)
}

} // verus!
