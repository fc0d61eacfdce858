//! The Humidity Sensor service.

use vstd::prelude::*;
use crate::characteristic::generated::current_relative_humidity;
use crate::hap_type::HapType;
use crate::service::{characteristics_view, Service, ServiceView};

verus! {

/// Humidity Sensor Service.
pub type HumiditySensor = Service;

/// The UUID of the Humidity Sensor service.
pub const UUID: &'static str = "00000082-0000-1000-8000-0026BB765291";

/// Creates a new Humidity Sensor service. Its one required characteristic is
/// the current relative humidity; the optional ones are absent.
pub fn new() -> (service: HumiditySensor)
    ensures
        service@ == (ServiceView {
            id: 0,
            hap_type: UUID@,
            hidden: false,
            primary: false,
            characteristics: seq![current_relative_humidity::new_model()],
        }),
{
    let humidity = current_relative_humidity::new();
    let ghost model = humidity@;
    let characteristics = vec![humidity];
    assert(characteristics_view(characteristics@) =~= seq![model]);
    Service::new(HapType::new(UUID), characteristics)
}

} // verus!
