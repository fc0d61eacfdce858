use hap::accessory::generated::humidity_sensor;
use hap::accessory::{init_iids, Accessory, Information};
use hap::characteristic::generated::{
    current_relative_humidity, identify, supported_audio_stream_configuration,
};
use hap::characteristic::value::{Format, Value};
use hap::characteristic::{Characteristic, Inner, Perm, Unit};
use hap::hap_type::HapType;
use hap::service::{accessory_information, Service};

fn information() -> Information {
    Information {
        name: "youcontrol Plug".into(),
        manufacturer: "youcontrol.io".into(),
        serial_number: "12345".into(),
        ..Default::default()
    }
}

fn walk(services: &[&Service]) -> Vec<u64> {
    let mut ids = Vec::new();
    for service in services {
        ids.push(service.get_id());
        for characteristic in service.get_characteristics() {
            ids.push(characteristic.get_id());
        }
    }
    ids
}

#[test]
fn information_defaults_to_undefined() {
    let information = Information::default();
    assert_eq!(information.name, "undefined");
    assert_eq!(information.manufacturer, "undefined");
    assert_eq!(information.model, "undefined");
    assert_eq!(information.serial_number, "undefined");
    assert_eq!(information.firmware_revision, "undefined");
}

#[test]
fn information_service_carries_the_texts() {
    let service = information().to_service().unwrap();
    let characteristics = service.get_characteristics();
    assert_eq!(characteristics.len(), 6);
    let types: Vec<String> = characteristics.iter().map(|c| c.get_type().to_string()).collect();
    assert_eq!(types, vec!["14", "20", "21", "23", "30", "52"]);
    assert!(characteristics[0].get_value().same(&Value::Bool(false)));
    assert!(characteristics[1].get_value().same(&Value::String("youcontrol.io".into())));
    assert!(characteristics[2].get_value().same(&Value::String("undefined".into())));
    assert!(characteristics[3].get_value().same(&Value::String("youcontrol Plug".into())));
    assert!(characteristics[4].get_value().same(&Value::String("12345".into())));
    assert!(characteristics[5].get_value().same(&Value::String("undefined".into())));
    assert_eq!(service.as_service().get_type().to_string(), "3E");
    assert_eq!(service.as_service().get_id(), 0);
}

#[test]
fn new_accessory_information_service() {
    let service = accessory_information::new();
    assert_eq!(service.as_service().get_type().uuid(), "0000003E-0000-1000-8000-0026BB765291");
    let characteristics = service.get_characteristics();
    assert_eq!(characteristics.len(), 6);
    assert_eq!(characteristics[0].get_format(), Format::Bool);
    assert_eq!(characteristics[0].get_perms(), &vec![Perm::PairedWrite]);
    for characteristic in &characteristics[1..] {
        assert_eq!(characteristic.get_format(), Format::String);
        assert_eq!(characteristic.get_perms(), &vec![Perm::PairedRead]);
        assert!(characteristic.get_value().same(&Value::String(String::new())));
    }
    assert!(!service.as_service().get_hidden());
    assert!(!service.as_service().get_primary());
}

#[test]
fn new_supported_audio_stream_configuration() {
    let characteristic = supported_audio_stream_configuration::new();
    assert_eq!(characteristic.get_type().to_string(), "115");
    assert_eq!(characteristic.get_format(), Format::Tlv8);
    assert_eq!(characteristic.get_perms(), &vec![Perm::PairedRead]);
    assert!(characteristic.get_value().same(&Value::Tlv8(vec![])));
    assert_eq!(characteristic.get_id(), 0);
    assert_eq!(characteristic.get_accessory_id(), 0);
    assert_eq!(characteristic.get_unit(), None);
    assert!(characteristic.get_max_value().is_none());
    assert!(characteristic.get_min_value().is_none());
    assert!(characteristic.get_step_value().is_none());
    assert_eq!(characteristic.get_max_len(), None);
    assert_eq!(characteristic.get_max_data_len(), None);
    assert_eq!(characteristic.get_event_notifications(), None);
}

#[test]
fn new_current_relative_humidity() {
    let characteristic = current_relative_humidity::new();
    assert_eq!(characteristic.get_type().to_string(), "10");
    assert_eq!(characteristic.get_format(), Format::Float);
    assert_eq!(characteristic.get_perms(), &vec![Perm::PairedRead, Perm::Events]);
    assert_eq!(characteristic.get_unit(), Some(Unit::Percentage));
    assert!(characteristic.get_max_value().unwrap().same(&Value::Float(100.0f32.to_bits())));
    assert!(characteristic.get_min_value().unwrap().same(&Value::Float(0.0f32.to_bits())));
    assert!(characteristic.get_step_value().unwrap().same(&Value::Float(1.0f32.to_bits())));
    assert_eq!(current_relative_humidity::MAX_VALUE, 100.0f32.to_bits());
    assert_eq!(current_relative_humidity::MIN_VALUE, 0.0f32.to_bits());
    assert_eq!(current_relative_humidity::STEP_VALUE, 1.0f32.to_bits());
}

#[test]
fn new_identify() {
    let characteristic = identify::new();
    assert_eq!(characteristic.get_type().to_string(), "14");
    assert_eq!(characteristic.get_format(), Format::Bool);
    assert!(characteristic.has_perm(Perm::PairedWrite));
    assert!(!characteristic.has_perm(Perm::PairedRead));
}

#[test]
fn new_humidity_sensor_accessory() {
    let accessory = humidity_sensor::new(information()).unwrap();
    assert_eq!(accessory.get_id(), 0);
    let services = accessory.get_services();
    assert_eq!(services.len(), 2);
    assert_eq!(services[0].get_type().to_string(), "3E");
    assert_eq!(services[1].get_type().to_string(), "82");
    assert!(!services[0].get_primary());
    assert!(services[1].get_primary());
    assert_eq!(services[1].get_characteristics().len(), 1);
    assert_eq!(services[1].get_characteristics()[0].get_type().to_string(), "10");
    assert_eq!(walk(&services), vec![0; 9]);
}

#[test]
fn init_iids_numbers_densely_from_one() {
    let mut accessory = humidity_sensor::new(information()).unwrap();
    accessory.init_iids(7);
    let services = accessory.get_services();
    assert_eq!(walk(&services), vec![1, 2, 3, 4, 5, 6, 7, 8, 9]);
    assert_eq!(services[0].get_id(), 1);
    assert_eq!(services[1].get_id(), 8);
    for service in &services {
        for characteristic in service.get_characteristics() {
            assert_eq!(characteristic.get_accessory_id(), 7);
        }
    }
    assert_eq!(accessory.get_id(), 0);
    assert!(services[1].get_primary());
    assert!(services[0].get_characteristics()[3].get_value().same(&Value::String("youcontrol Plug".into())));
}

#[test]
fn init_iids_twice_gives_the_same_ids() {
    let mut accessory = humidity_sensor::new(information()).unwrap();
    accessory.init_iids(1);
    accessory.init_iids(1);
    assert_eq!(walk(&accessory.get_services()), vec![1, 2, 3, 4, 5, 6, 7, 8, 9]);
}

#[test]
fn set_id_and_mutable_access() {
    let mut accessory = humidity_sensor::new(information()).unwrap();
    accessory.set_id(3);
    assert_eq!(accessory.get_id(), 3);
    {
        let mut services = accessory.get_mut_services();
        assert_eq!(services.len(), 2);
        services[1].set_hidden(true);
        services[0].set_id(40);
    }
    assert!(accessory.humidity_sensor.get_hidden());
    assert_eq!(accessory.accessory_information.as_service().get_id(), 40);
    accessory.get_mut_information().as_mut_service().set_id(41);
    assert_eq!(accessory.get_services()[0].get_id(), 41);
}

#[test]
fn into_accessory_keeps_id_and_services() {
    let mut typed = humidity_sensor::new(information()).unwrap();
    typed.set_id(2);
    typed.init_iids(2);
    let accessory = typed.into_accessory();
    assert_eq!(accessory.get_id(), 2);
    let services: Vec<&Service> = accessory.get_services().iter().collect();
    assert_eq!(walk(&services), vec![1, 2, 3, 4, 5, 6, 7, 8, 9]);
    assert_eq!(services[1].get_type().to_string(), "82");
}

#[test]
fn accessory_numbers_every_service() {
    let extra = |n: usize| {
        let mut characteristics = Vec::new();
        for _ in 0..n {
            characteristics.push(Characteristic::new(Inner::new(
                HapType::new("00000025-0000-1000-8000-0026BB765291"),
                Format::Bool,
                vec![Perm::PairedRead, Perm::PairedWrite, Perm::Events],
            )));
        }
        Service::new(HapType::new("00000047-0000-1000-8000-0026BB765291"), characteristics)
    };
    let mut accessory =
        Accessory::new(information().to_service().unwrap(), vec![extra(2), extra(0), extra(3)]);
    assert_eq!(accessory.get_id(), 0);
    accessory.init_iids(5);
    let services: Vec<&Service> = accessory.get_services().iter().collect();
    assert_eq!(services.len(), 4);
    assert_eq!(walk(&services), (1..=15).collect::<Vec<u64>>());
    assert_eq!(services[1].get_id(), 8);
    assert_eq!(services[2].get_id(), 11);
    assert_eq!(services[3].get_id(), 12);
    assert_eq!(accessory.find_characteristic(10), Some((1, 1)));
    assert_eq!(accessory.find_characteristic(8), None);
    assert_eq!(accessory.find_characteristic(15), Some((3, 2)));
    assert_eq!(accessory.find_characteristic(16), None);
    assert_eq!(accessory.get_characteristic(3, 2).get_id(), 15);
    accessory.get_mut_characteristic(1, 0).set_event_notifications(Some(true));
    assert_eq!(accessory.get_characteristic(1, 0).get_event_notifications(), Some(true));
    assert_eq!(accessory.get_characteristic(1, 1).get_event_notifications(), None);
}

#[test]
fn init_iids_on_a_list_of_services() {
    let mut services = vec![
        Service::new(HapType::new("A"), vec![identify::new()]),
        Service::new(HapType::new("B"), vec![]),
    ];
    init_iids(&mut services, 9);
    assert_eq!(services[0].get_id(), 1);
    assert_eq!(services[0].get_characteristics()[0].get_id(), 2);
    assert_eq!(services[0].get_characteristics()[0].get_accessory_id(), 9);
    assert_eq!(services[1].get_id(), 3);
}

#[test]
fn service_flags_and_lookup() {
    let mut service = Service::new(HapType::new("00000082-0000-1000-8000-0026BB765291"), vec![
        current_relative_humidity::new(),
        identify::new(),
    ]);
    assert_eq!(service.init_iids(4, 1), 7);
    assert_eq!(service.get_id(), 4);
    assert_eq!(service.find_characteristic(5), Some(0));
    assert_eq!(service.find_characteristic(6), Some(1));
    assert_eq!(service.find_characteristic(4), None);
    assert_eq!(service.find_characteristic(7), None);
    service.set_primary(true);
    service.set_hidden(true);
    assert!(service.get_primary());
    assert!(service.get_hidden());
    service.get_mut_characteristics().pop();
    assert_eq!(service.get_characteristics().len(), 1);
    service.get_mut_characteristic(0).set_id(77);
    assert_eq!(service.get_characteristic(0).get_id(), 77);
}
