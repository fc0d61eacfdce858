//! The Humidity Sensor accessory.

use vstd::prelude::*;
use crate::accessory::{
    instance_count, instances_before, numbered, same_but_ids, Accessory, AccessoryView,
    Information,
};
use crate::characteristic::generated::current_relative_humidity;
use crate::error::Error;
use crate::service::accessory_information::{self, AccessoryInformation};
use crate::service::generated::humidity_sensor;
use crate::service::{Service, ServiceView};

verus! {

/// Humidity Sensor Accessory.
pub type HumiditySensor = HumiditySensorInner;

/// Inner type of the Humidity Sensor Accessory.
#[derive(Debug)]
pub struct HumiditySensorInner {
    /// ID of the Humidity Sensor Accessory.
    id: u64,
    /// Accessory Information Service.
    pub accessory_information: AccessoryInformation,
    /// Humidity Sensor Service.
    pub humidity_sensor: humidity_sensor::HumiditySensor,
}

impl View for HumiditySensorInner {
    type V = AccessoryView;

    closed spec fn view(&self) -> AccessoryView {
        AccessoryView {
            id: self.id,
            services: seq![self.accessory_information@, self.humidity_sensor@],
        }
    }
}

impl HumiditySensorInner {
    /// The accessory id.
    pub fn get_id(&self) -> (id: u64)
        ensures
            id == self@.id,
    {
        self.id
    }

    /// Sets the accessory id.
    pub fn set_id(&mut self, id: u64)
        ensures
            final(self)@ == (AccessoryView { id, ..old(self)@ }),
    {
        self.id = id;
    }

    /// The two services: Accessory Information, then Humidity Sensor.
    pub fn get_services(&self) -> (services: Vec<&Service>)
        ensures
            services@.len() == 2,
            services@[0]@ == self@.services[0],
            services@[1]@ == self@.services[1],
    {
        let mut services: Vec<&Service> = Vec::new();
        services.push(self.accessory_information.as_service());
        services.push(&self.humidity_sensor);
        services
    }

    /// The two services, for change.
    pub fn get_mut_services(&mut self) -> (services: Vec<&mut Service>)
        ensures
            services@.len() == 2,
            services@[0]@ == old(self)@.services[0],
            services@[1]@ == old(self)@.services[1],
            final(self)@ == (AccessoryView {
                id: old(self)@.id,
                services: seq![final(services@[0])@, final(services@[1])@],
            }),
    {
        let mut services: Vec<&mut Service> = Vec::new();
        services.push(self.accessory_information.as_mut_service());
        services.push(&mut self.humidity_sensor);
        services
    }

    /// The Accessory Information service, for change.
    pub fn get_mut_information(&mut self) -> (information: &mut AccessoryInformation)
        ensures
            information@ == old(self)@.services[0],
            final(self)@ == (AccessoryView {
                id: old(self)@.id,
                services: seq![final(information)@, old(self)@.services[1]],
            }),
    {
        &mut self.accessory_information
    }

    /// Numbers the services and characteristics: instance ids from 1, each
    /// service before its characteristics, and the accessory id on every
    /// characteristic. Nothing else changes.
    pub fn init_iids(&mut self, accessory_id: u64)
        requires
            instance_count(old(self)@.services) < u64::MAX,
        ensures
            final(self)@.id == old(self)@.id,
            numbered(final(self)@.services, accessory_id),
            same_but_ids(final(self)@.services, old(self)@.services),
    {
        proof {
            reveal_with_fuel(instances_before, 3);
        }
        let next_iid = self.accessory_information.as_mut_service().init_iids(1, accessory_id);
        self.humidity_sensor.init_iids(next_iid, accessory_id);
    }

    /// The accessory in the form in which it is published.
    pub fn into_accessory(self) -> (accessory: Accessory)
        ensures
            accessory@ == self@,
    {
        let mut services: Vec<Service> = Vec::new();
        services.push(self.humidity_sensor);
        let mut accessory = Accessory::new(self.accessory_information, services);
        accessory.set_id(self.id);
        assert(accessory@.services =~= self@.services);
        accessory
    }
}

/// Creates a new Humidity Sensor Accessory: the Accessory Information
/// service that carries the information, and a Humidity Sensor service as
/// the primary service.
pub fn new(information: Information) -> (result: Result<HumiditySensor, Error>)
    ensures
        result is Ok,
        result->Ok_0@ == (AccessoryView {
            id: 0,
            services: seq![
                ServiceView {
                    id: 0,
                    hap_type: accessory_information::UUID@,
                    hidden: false,
                    primary: false,
                    characteristics: information.characteristics(),
                },
                ServiceView {
                    id: 0,
                    hap_type: humidity_sensor::UUID@,
                    hidden: false,
                    primary: true,
                    characteristics: seq![current_relative_humidity::new_model()],
                },
            ],
        }),
{
    let mut humidity_sensor = humidity_sensor::new();
    humidity_sensor.set_primary(true);
    Ok(
        HumiditySensorInner {
            id: 0,
            accessory_information: information.to_service()?,
            humidity_sensor,
        },
    )
}

} // verus!
