use hap::config::{valid_pin, Config};
use hap::text::to_decimal;

#[test]
fn default_config() {
    let config = Config::default();
    assert_eq!(config.name, "Accessory");
    assert_eq!(config.port, 32000);
    assert_eq!(config.pin, "111-22-333");
    assert_eq!(config.category, 1);
    assert_eq!(config.configuration_number, 1);
    assert_eq!(config.state_number, 1);
    assert!(valid_pin(&config.pin));
}

#[test]
fn pins_are_eight_digits_in_three_groups() {
    assert!(valid_pin("031-45-154"));
    assert!(valid_pin("000-00-000"));
    for pin in ["03145154", "031-45-15", "031-45-1544", "031 45 154", "031-45_154", "03a-45-154", "031-4-5154", "", "031-45-15٣"] {
        assert!(!valid_pin(pin), "{}", pin);
    }
}

#[test]
fn txt_records_reflect_the_pairing_state() {
    let mut config = Config {
        name: "youcontrol_Plug".into(),
        model: "Plug 1".into(),
        device_id: "AB:CD:EF:12:34:56".into(),
        category: 7,
        configuration_number: 41,
        ..Config::default()
    };
    let pairs = |paired| -> Vec<String> {
        config.txt_records(paired).iter().map(|(k, v)| format!("{}={}", k, v)).collect()
    };
    assert_eq!(
        pairs(false),
        vec!["md=Plug 1", "pv=1.0", "id=AB:CD:EF:12:34:56", "c#=41", "s#=1", "sf=1", "ff=0", "ci=7"]
    );
    assert_eq!(
        pairs(true),
        vec!["md=Plug 1", "pv=1.0", "id=AB:CD:EF:12:34:56", "c#=41", "s#=1", "sf=0", "ff=0", "ci=7"]
    );
    config.bump_configuration_number();
    assert_eq!(config.configuration_number, 42);
    assert_eq!(config.txt_records(true)[3], ("c#".to_string(), "42".to_string()));
    assert_eq!(config.name, "youcontrol_Plug");
}

#[test]
fn to_decimal_writes_numbers() {
    for n in [0u64, 1, 9, 10, 11, 99, 100, 101, 255, 1000, 70404, u32::MAX as u64, u64::MAX] {
        assert_eq!(to_decimal(n), n.to_string());
        assert_eq!(hap::text::parse_u64(&to_decimal(n)), Some(n));
    }
}
