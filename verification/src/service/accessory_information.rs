//! The Accessory Information service.

use vstd::prelude::*;
use crate::characteristic::generated::{
    firmware_revision, identify, manufacturer, model, name, serial_number,
};
use crate::characteristic::value::Format;
use crate::characteristic::{plain, Characteristic, CharacteristicView, Perm};
use crate::hap_type::HapType;
use crate::service::{characteristics_view, Service, ServiceView};

verus! {

/// The UUID of the Accessory Information service.
pub const UUID: &'static str = "0000003E-0000-1000-8000-0026BB765291";

/// Accessory Information Service: what identifies an accessory to its user.
/// Its characteristics are, in this order: identify, manufacturer, model,
/// name, serial number, firmware revision.
#[derive(Debug)]
pub struct AccessoryInformation {
    service: Service,
}

impl View for AccessoryInformation {
    type V = ServiceView;

    closed spec fn view(&self) -> ServiceView {
        self.service@
    }
}

/// The six characteristics of a new Accessory Information service.
pub open spec fn new_characteristics() -> Seq<CharacteristicView> {
    seq![
        plain(identify::UUID@, Format::Bool, seq![Perm::PairedWrite]),
        plain(manufacturer::UUID@, Format::String, seq![Perm::PairedRead]),
        plain(model::UUID@, Format::String, seq![Perm::PairedRead]),
        plain(name::UUID@, Format::String, seq![Perm::PairedRead]),
        plain(serial_number::UUID@, Format::String, seq![Perm::PairedRead]),
        plain(firmware_revision::UUID@, Format::String, seq![Perm::PairedRead]),
    ]
}

impl AccessoryInformation {
    /// The Accessory Information service with the six given characteristics.
    pub fn from_characteristics(
        identify: Characteristic,
        manufacturer: Characteristic,
        model: Characteristic,
        name: Characteristic,
        serial_number: Characteristic,
        firmware_revision: Characteristic,
    ) -> (information: AccessoryInformation)
        ensures
            information@ == (ServiceView {
                id: 0,
                hap_type: UUID@,
                hidden: false,
                primary: false,
                characteristics: seq![
                    identify@,
                    manufacturer@,
                    model@,
                    name@,
                    serial_number@,
                    firmware_revision@,
                ],
            }),
    {
        let characteristics = vec![
            identify,
            manufacturer,
            model,
            name,
            serial_number,
            firmware_revision,
        ];
        assert(characteristics_view(characteristics@) =~= seq![
            identify@,
            manufacturer@,
            model@,
            name@,
            serial_number@,
            firmware_revision@,
        ]);
        AccessoryInformation { service: Service::new(HapType::new(UUID), characteristics) }
    }

    /// The characteristics, in their order.
    pub fn get_characteristics(&self) -> (characteristics: &Vec<Characteristic>)
        ensures
            characteristics_view(characteristics@) == self@.characteristics,
    {
        self.service.get_characteristics()
    }

    /// The service.
    pub fn as_service(&self) -> (service: &Service)
        ensures
            service@ == self@,
    {
        &self.service
    }

    /// The service, for change.
    pub fn as_mut_service(&mut self) -> (service: &mut Service)
        ensures
            service@ == old(self)@,
            final(self)@ == final(service)@,
    {
        &mut self.service
    }

    /// Gives the service up.
    pub fn into_service(self) -> (service: Service)
        ensures
            service@ == self@,
    {
        self.service
    }
}

/// Creates a new Accessory Information service.
pub fn new() -> (information: AccessoryInformation)
    ensures
        information@ == (ServiceView {
            id: 0,
            hap_type: UUID@,
            hidden: false,
            primary: false,
            characteristics: new_characteristics(),
        }),
{
    AccessoryInformation::from_characteristics(
        identify::new(),
        manufacturer::new(),
        model::new(),
        name::new(),
        serial_number::new(),
        firmware_revision::new(),
    )
}

} // verus!
