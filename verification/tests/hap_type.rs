use hap::hap_type::{shorten_uuid, HapType};

#[test]
fn shortens_accessory_information_uuid() {
    assert_eq!(shorten_uuid("0000003E-0000-1000-8000-0026BB765291"), "3E");
}

#[test]
fn shortens_uuid_to_single_digit() {
    assert_eq!(shorten_uuid("00000001-0000-1000-8000-0026BB765291"), "1");
}

#[test]
fn hap_type_serialises_shortened() {
    let hap_type = HapType::new("00000115-0000-1000-8000-0026BB765291");
    assert_eq!(hap_type.to_string(), "115");
    assert_eq!(hap_type.uuid(), "00000115-0000-1000-8000-0026BB765291");
}
