use hap::accessory::Information;
use hap::characteristic::value::{Format, Value};
use hap::characteristic::{Perm, Unit};
use hap::error::Error;
use hap::generator::{
    category_number, file_name, find_characteristic, hash_differs, makes_accessory,
    metadata_hash,
    new_accessory, new_characteristic, new_service, parse_format, parse_unit,
    regeneration_needed, properties_to_perms, type_identifier, Category, CharacteristicMetadata,
    Constraints, Metadata, ServiceMetadata,
};
use hap::json::JsonValue;

fn characteristic(id: &str, name: &str, format: &str) -> CharacteristicMetadata {
    CharacteristicMetadata {
        id: id.to_string(),
        name: name.to_string(),
        format: format.to_string(),
        unit: None,
        constraints: None,
        permissions: None,
        properties: Some(vec!["read".to_string()]),
    }
}

fn metadata() -> Metadata {
    let mut humidity = characteristic("00000010-0000-1000-8000-0026BB765291", "Current Relative Humidity", "float");
    humidity.unit = Some("percentage".to_string());
    humidity.properties = Some(vec!["read".to_string(), "cnotify".to_string(), "uncnotify".to_string()]);
    humidity.constraints = Some(Constraints {
        valid_values: None,
        max_value: Some(JsonValue::Integer(100)),
        min_value: Some(JsonValue::Integer(0)),
        step_value: Some(JsonValue::Integer(1)),
        max_len: None,
    });
    let mut active = characteristic("000000B0-0000-1000-8000-0026BB765291", "Active", "uint8");
    active.properties = Some(vec!["read".to_string(), "write".to_string(), "cnotify".to_string()]);
    active.constraints = Some(Constraints {
        valid_values: Some(vec![("0".to_string(), "Inactive".to_string()), ("1".to_string(), "Active".to_string())]),
        max_value: None,
        min_value: None,
        step_value: None,
        max_len: None,
    });
    Metadata {
        categories: vec![
            Category { name: "Other".to_string(), number: 1 },
            Category { name: "Outlet".to_string(), number: 7 },
            Category { name: "Sensor".to_string(), number: 10 },
        ],
        characteristics: vec![
            humidity,
            active,
            characteristic("00000115-0000-1000-8000-0026BB765291", "Supported Audio Stream Configuration", "tlv8"),
            characteristic("00000023-0000-1000-8000-0026BB765291", "Name", "string"),
        ],
        services: vec![
            ServiceMetadata {
                id: "00000082-0000-1000-8000-0026BB765291".to_string(),
                name: "Humidity Sensor".to_string(),
                required_characteristics: vec!["00000010-0000-1000-8000-0026BB765291".to_string()],
                optional_characteristics: vec!["00000023-0000-1000-8000-0026BB765291".to_string()],
            },
            ServiceMetadata {
                id: "000000D7-0000-1000-8000-0026BB765291".to_string(),
                name: "Faucet".to_string(),
                required_characteristics: vec![
                    "000000B0-0000-1000-8000-0026BB765291".to_string(),
                    "FFFFFFFF-0000-1000-8000-0026BB765291".to_string(),
                    "00000023-0000-1000-8000-0026BB765291".to_string(),
                ],
                optional_characteristics: vec![],
            },
        ],
    }
}

#[test]
fn names_of_types_and_modules() {
    assert_eq!(type_identifier("Supported Audio Stream Configuration"), "SupportedAudioStreamConfiguration");
    assert_eq!(type_identifier("PM2.5 Density"), "PM2_5Density");
    assert_eq!(type_identifier(""), "");
    assert_eq!(type_identifier("  a  b "), "ab");
    assert_eq!(file_name("Supported Audio Stream Configuration"), "supported_audio_stream_configuration");
    assert_eq!(file_name("PM2.5 Density"), "pm2_5_density");
    assert_eq!(file_name("Humidity Sensor"), "humidity_sensor");
    assert_eq!(file_name("ÄB c"), "äb_c");
    for name in ["Accessory Information", "Current Relative Humidity", "PM2.5 Density", "a.b c.D"] {
        assert_eq!(type_identifier(name), name.replace(" ", "").replace(".", "_"));
        assert_eq!(file_name(name), name.replace(" ", "_").replace(".", "_").to_lowercase());
    }
}

#[test]
fn hash_gate() {
    assert!(regeneration_needed("", b"{\"Categories\":[]}"));
    assert!(regeneration_needed("0", b""));
    assert!(!regeneration_needed("e3b0c44298fc1c149afbf4c8996fb92427ae41e4649b934ca495991b7852b855", b""));
    assert!(!regeneration_needed("ba7816bf8f01cfea414140de5dae2223b00361a396177a9cb410ff61f20015ad", b"abc"));
    assert!(regeneration_needed("BA7816BF8F01CFEA414140DE5DAE2223B00361A396177A9CB410FF61F20015AD", b"abc"));
    assert!(regeneration_needed("ba7816bf8f01cfea414140de5dae2223b00361a396177a9cb410ff61f20015ad", b"abd"));
    assert_eq!(
        metadata_hash(b"abc"),
        "ba7816bf8f01cfea414140de5dae2223b00361a396177a9cb410ff61f20015ad"
    );
    let unchanged = metadata_hash(b"{\"Categories\":[]}");
    assert!(!regeneration_needed(&unchanged, b"{\"Categories\":[]}"));
    assert!(hash_differs("a", "b"));
    assert!(!hash_differs("a", "a"));
}

#[test]
fn formats_units_and_permissions() {
    let formats = [
        ("bool", Format::Bool),
        ("uint8", Format::UInt8),
        ("uint16", Format::UInt16),
        ("uint32", Format::UInt32),
        ("uint64", Format::UInt64),
        ("int", Format::Int32),
        ("int32", Format::Int32),
        ("float", Format::Float),
        ("string", Format::String),
        ("tlv8", Format::Tlv8),
        ("data", Format::Data),
    ];
    for (name, format) in formats {
        assert_eq!(parse_format(name), Some(format));
    }
    assert_eq!(parse_format("Bool"), None);
    assert_eq!(parse_format("double"), None);
    let units = [
        ("percentage", Unit::Percentage),
        ("arcdegrees", Unit::ArcDegrees),
        ("celsius", Unit::Celsius),
        ("lux", Unit::Lux),
        ("seconds", Unit::Seconds),
    ];
    for (name, unit) in units {
        assert_eq!(parse_unit(name), Some(unit));
    }
    assert_eq!(parse_unit("kelvin"), None);
    let properties = |v: &[&str]| -> Vec<String> { v.iter().map(|s| s.to_string()).collect() };
    assert_eq!(
        properties_to_perms(&properties(&["read", "write", "cnotify", "uncnotify"])),
        vec![Perm::PairedRead, Perm::PairedWrite, Perm::Events]
    );
    assert_eq!(properties_to_perms(&properties(&["cnotify", "x", "read", "read"])), vec![Perm::Events, Perm::PairedRead, Perm::PairedRead]);
    assert_eq!(properties_to_perms(&properties(&[])), vec![]);
}

#[test]
fn accessories_are_made_for_most_services() {
    for name in [
        "Accessory Information",
        "Battery Service",
        "Camera RTP Stream Management",
        "Doorbell",
        "Faucet",
        "Filter Maintenance",
        "Irrigation System",
        "Lock Management",
        "Lock Mechanism",
        "Microphone",
        "Service Label",
        "Slat",
        "Speaker",
        "Television",
    ] {
        assert!(!makes_accessory(name), "{}", name);
    }
    for name in ["Humidity Sensor", "Outlet", "Lightbulb", "faucet", ""] {
        assert!(makes_accessory(name), "{}", name);
    }
}

#[test]
fn categories_have_numbers() {
    let metadata = metadata();
    assert_eq!(category_number(&metadata, "Outlet"), Some(7));
    assert_eq!(category_number(&metadata, "Other"), Some(1));
    assert_eq!(category_number(&metadata, "Sensor"), Some(10));
    assert_eq!(category_number(&metadata, "Fan"), None);
}

#[test]
fn characteristic_from_metadata() {
    let metadata = metadata();
    let humidity = new_characteristic(&metadata.characteristics[0]).unwrap();
    assert_eq!(humidity.get_type().to_string(), "10");
    assert_eq!(humidity.get_format(), Format::Float);
    assert_eq!(humidity.get_perms(), &vec![Perm::PairedRead, Perm::Events]);
    assert_eq!(humidity.get_unit(), Some(Unit::Percentage));
    assert!(humidity.get_max_value().unwrap().same(&Value::Float(100.0f32.to_bits())));
    assert!(humidity.get_min_value().unwrap().same(&Value::Float(0.0f32.to_bits())));
    assert!(humidity.get_step_value().unwrap().same(&Value::Float(1.0f32.to_bits())));
    assert!(humidity.get_value().same(&Value::Float(0.0f32.to_bits())));
    let active = new_characteristic(&metadata.characteristics[1]).unwrap();
    assert_eq!(active.get_format(), Format::UInt8);
    assert!(active.admits(&Value::UInt8(0)));
    assert!(active.admits(&Value::UInt8(1)));
    assert!(!active.admits(&Value::UInt8(2)));
    let audio = new_characteristic(&metadata.characteristics[2]).unwrap();
    assert_eq!(audio.get_type().to_string(), "115");
    assert_eq!(audio.get_format(), Format::Tlv8);
    assert_eq!(audio.get_perms(), &vec![Perm::PairedRead]);
}

#[test]
fn characteristic_from_bad_metadata_is_refused() {
    let mut c = characteristic("A", "A", "double");
    assert_eq!(new_characteristic(&c).unwrap_err(), Error::Protocol);
    c.format = "uint8".to_string();
    c.unit = Some("kelvin".to_string());
    assert_eq!(new_characteristic(&c).unwrap_err(), Error::Protocol);
    c.unit = None;
    c.constraints = Some(Constraints {
        valid_values: None,
        max_value: Some(JsonValue::Integer(256)),
        min_value: None,
        step_value: None,
        max_len: None,
    });
    assert_eq!(new_characteristic(&c).unwrap_err(), Error::Protocol);
    c.constraints = Some(Constraints {
        valid_values: Some(vec![("0".to_string(), "a".to_string()), ("x".to_string(), "b".to_string())]),
        max_value: None,
        min_value: None,
        step_value: None,
        max_len: Some(3),
    });
    assert_eq!(new_characteristic(&c).unwrap_err(), Error::Protocol);
    c.constraints = Some(Constraints {
        valid_values: Some(vec![("0".to_string(), "a".to_string()), ("300".to_string(), "b".to_string())]),
        max_value: None,
        min_value: None,
        step_value: None,
        max_len: None,
    });
    assert_eq!(new_characteristic(&c).unwrap_err(), Error::Protocol);
    c.properties = None;
    c.constraints = None;
    let made = new_characteristic(&c).unwrap();
    assert!(made.get_perms().is_empty());
}

#[test]
fn service_from_metadata_has_the_required_characteristics() {
    let metadata = metadata();
    assert_eq!(find_characteristic(&metadata, "00000023-0000-1000-8000-0026BB765291"), 3);
    assert_eq!(find_characteristic(&metadata, "nothing"), 4);
    let sensor = new_service(&metadata, &metadata.services[0]).unwrap();
    assert_eq!(sensor.get_type().to_string(), "82");
    assert_eq!(sensor.get_characteristics().len(), 1);
    assert_eq!(sensor.get_characteristics()[0].get_type().to_string(), "10");
    assert!(!sensor.get_primary());
    let faucet = new_service(&metadata, &metadata.services[1]).unwrap();
    let types: Vec<String> = faucet.get_characteristics().iter().map(|c| c.get_type().to_string()).collect();
    assert_eq!(types, vec!["B0", "23"]);
}

#[test]
fn accessory_from_metadata() {
    let metadata = metadata();
    let accessory = new_accessory(&metadata, &metadata.services[0], Information::default()).unwrap().unwrap();
    assert!(accessory.is_well_formed());
    let services = accessory.get_services();
    assert_eq!(services.len(), 2);
    assert_eq!(services[0].get_type().to_string(), "3E");
    assert_eq!(services[1].get_type().to_string(), "82");
    assert!(services[1].get_primary());
    assert!(new_accessory(&metadata, &metadata.services[1], Information::default()).unwrap().is_none());
}
