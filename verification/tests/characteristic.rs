use hap::characteristic::generated::current_relative_humidity;
use hap::characteristic::value::{Format, Value};
use hap::characteristic::{Characteristic, Inner, Perm, Unit, INVALID_VALUE_IN_REQUEST};
use hap::error::Error;
use hap::hap_type::HapType;

fn plain(format: Format) -> Inner {
    Inner::new(
        HapType::new("00000025-0000-1000-8000-0026BB765291"),
        format,
        vec![Perm::PairedRead, Perm::PairedWrite],
    )
}

#[test]
fn set_value_reports_change() {
    let mut c = Characteristic::new(plain(Format::Bool));
    assert_eq!(c.set_value(Value::Bool(false)), Ok(false));
    assert_eq!(c.set_value(Value::Bool(true)), Ok(true));
    assert_eq!(c.set_value(Value::Bool(true)), Ok(false));
    assert!(c.get_value().same(&Value::Bool(true)));
}

#[test]
fn set_value_refuses_another_format() {
    let mut c = Characteristic::new(plain(Format::UInt8));
    assert_eq!(c.set_value(Value::UInt16(1)), Err(Error::HapStatus(-70410)));
    assert_eq!(c.set_value(Value::Bool(true)), Err(Error::HapStatus(INVALID_VALUE_IN_REQUEST)));
    assert!(c.get_value().same(&Value::UInt8(0)));
    assert_eq!(c.get_format(), Format::UInt8);
}

#[test]
fn integer_constraints_are_enforced() {
    let mut inner = plain(Format::UInt8);
    inner.min_value = Some(Value::UInt8(10));
    inner.max_value = Some(Value::UInt8(20));
    inner.step_value = Some(Value::UInt8(5));
    let mut c = Characteristic::new(inner);
    assert!(!c.admits(&Value::UInt8(9)));
    assert!(c.admits(&Value::UInt8(10)));
    assert!(!c.admits(&Value::UInt8(11)));
    assert!(c.admits(&Value::UInt8(15)));
    assert!(c.admits(&Value::UInt8(20)));
    assert!(!c.admits(&Value::UInt8(21)));
    assert!(!c.admits(&Value::UInt8(25)));
    assert_eq!(c.set_value(Value::UInt8(12)), Err(Error::HapStatus(-70410)));
    assert!(c.get_value().same(&Value::UInt8(0)));
    assert_eq!(c.set_value(Value::UInt8(15)), Ok(true));
    assert!(c.get_value().same(&Value::UInt8(15)));
}

#[test]
fn steps_count_from_zero_without_a_minimum() {
    let mut inner = plain(Format::Int32);
    inner.step_value = Some(Value::Int32(3));
    let c = Characteristic::new(inner);
    assert!(c.admits(&Value::Int32(-6)));
    assert!(c.admits(&Value::Int32(0)));
    assert!(c.admits(&Value::Int32(9)));
    assert!(!c.admits(&Value::Int32(-5)));
    assert!(!c.admits(&Value::Int32(10)));
}

#[test]
fn a_step_that_is_not_positive_does_not_bear() {
    let mut inner = plain(Format::Int32);
    inner.step_value = Some(Value::Int32(0));
    let c = Characteristic::new(inner);
    assert!(c.admits(&Value::Int32(7)));
    let mut inner = plain(Format::Int32);
    inner.step_value = Some(Value::Int32(-2));
    let c = Characteristic::new(inner);
    assert!(c.admits(&Value::Int32(7)));
}

#[test]
fn valid_values_are_enforced() {
    let mut inner = plain(Format::UInt8);
    inner.valid_values = Some(vec![Value::UInt8(0), Value::UInt8(2)]);
    let c = Characteristic::new(inner);
    assert!(c.admits(&Value::UInt8(0)));
    assert!(!c.admits(&Value::UInt8(1)));
    assert!(c.admits(&Value::UInt8(2)));
    let mut inner = plain(Format::UInt8);
    inner.valid_values = Some(vec![]);
    let c = Characteristic::new(inner);
    assert!(!c.admits(&Value::UInt8(0)));
}

#[test]
fn float_constraints_are_enforced() {
    let c = current_relative_humidity::new();
    assert!(c.admits(&Value::Float(0.0f32.to_bits())));
    assert!(c.admits(&Value::Float((-0.0f32).to_bits())));
    assert!(c.admits(&Value::Float(45.5f32.to_bits())));
    assert!(c.admits(&Value::Float(100.0f32.to_bits())));
    assert!(!c.admits(&Value::Float(100.5f32.to_bits())));
    assert!(!c.admits(&Value::Float((-0.5f32).to_bits())));
    assert!(!c.admits(&Value::Float(f32::NAN.to_bits())));
    assert!(!c.admits(&Value::Float(f32::INFINITY.to_bits())));
    let unconstrained = Characteristic::new(plain(Format::Float));
    assert!(unconstrained.admits(&Value::Float(f32::INFINITY.to_bits())));
    assert!(!unconstrained.admits(&Value::Float(f32::NAN.to_bits())));
}

#[test]
fn lengths_are_enforced() {
    let mut inner = plain(Format::String);
    inner.max_len = Some(3);
    let c = Characteristic::new(inner);
    assert!(c.admits(&Value::String("abc".into())));
    assert!(c.admits(&Value::String("äöü".into())));
    assert!(!c.admits(&Value::String("abcd".into())));
    let mut inner = plain(Format::Data);
    inner.max_data_len = Some(2);
    let c = Characteristic::new(inner);
    assert!(c.admits(&Value::Data(vec![1, 2])));
    assert!(!c.admits(&Value::Data(vec![1, 2, 3])));
    assert!(!c.admits(&Value::Tlv8(vec![1])));
}

#[test]
fn setters_change_one_field() {
    let mut c = Characteristic::new(plain(Format::Bool));
    c.set_id(10);
    c.set_accessory_id(1);
    c.set_event_notifications(Some(true));
    assert_eq!(c.get_id(), 10);
    assert_eq!(c.get_accessory_id(), 1);
    assert_eq!(c.get_event_notifications(), Some(true));
    assert!(c.get_value().same(&Value::Bool(false)));
    assert_eq!(c.get_perms(), &vec![Perm::PairedRead, Perm::PairedWrite]);
    assert!(c.has_perm(Perm::PairedWrite));
    assert!(!c.has_perm(Perm::Events));
}

#[test]
fn names_of_units_and_permissions() {
    assert_eq!(Unit::Percentage.name(), "percentage");
    assert_eq!(Unit::ArcDegrees.name(), "arcdegrees");
    assert_eq!(Unit::Celsius.name(), "celsius");
    assert_eq!(Unit::Lux.name(), "lux");
    assert_eq!(Unit::Seconds.name(), "seconds");
    assert_eq!(Perm::PairedRead.name(), "pr");
    assert_eq!(Perm::PairedWrite.name(), "pw");
    assert_eq!(Perm::Events.name(), "ev");
    assert_eq!(Perm::AdditionalAuthorization.name(), "aa");
    assert_eq!(Perm::TimedWrite.name(), "tw");
    assert_eq!(Perm::Hidden.name(), "hd");
}
