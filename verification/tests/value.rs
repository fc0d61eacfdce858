use hap::characteristic::value::{
    bytes_equal, float_less_or_equal, integer_to_float, Format, Value,
};
use hap::json::JsonValue;

fn json_eq(a: &JsonValue, b: &JsonValue) -> bool {
    match (a, b) {
        (JsonValue::Null, JsonValue::Null) => true,
        (JsonValue::Bool(x), JsonValue::Bool(y)) => x == y,
        (JsonValue::Integer(x), JsonValue::Integer(y)) => x == y,
        (JsonValue::Float(x), JsonValue::Float(y)) => x == y,
        (JsonValue::String(x), JsonValue::String(y)) => x == y,
        (JsonValue::Array(x), JsonValue::Array(y)) => {
            x.len() == y.len() && x.iter().zip(y.iter()).all(|(p, q)| json_eq(p, q))
        }
        (JsonValue::Object(x), JsonValue::Object(y)) => {
            x.len() == y.len()
                && x.iter().zip(y.iter()).all(|(p, q)| p.0 == q.0 && json_eq(&p.1, &q.1))
        }
        _ => false,
    }
}

fn samples() -> Vec<Value> {
    vec![
        Value::Bool(false),
        Value::Bool(true),
        Value::UInt8(0),
        Value::UInt8(255),
        Value::UInt16(65535),
        Value::UInt32(u32::MAX),
        Value::UInt64(u64::MAX),
        Value::Int32(i32::MIN),
        Value::Int32(i32::MAX),
        Value::Float(21.5f32.to_bits()),
        Value::Float((-0.0f32).to_bits()),
        Value::String(String::new()),
        Value::String("youcontrol Plug".to_string()),
        Value::Tlv8(vec![]),
        Value::Tlv8(vec![1, 2, 255]),
        Value::Data(vec![0, 128, 7]),
    ]
}

#[test]
fn json_round_trip_gives_the_value_back() {
    for value in samples() {
        let json = value.to_json();
        let back = Value::from_json(value.format(), &json).expect("decodes");
        assert!(back.same(&value), "{:?}", value);
        assert!(json_eq(&back.to_json(), &json));
    }
}

#[test]
fn json_round_trip_keeps_bytes() {
    let bytes = vec![0u8, 1, 2, 254, 255];
    let json = Value::Tlv8(bytes.clone()).to_json();
    match Value::from_json(Format::Tlv8, &json) {
        Some(Value::Tlv8(back)) => assert_eq!(back, bytes),
        other => panic!("{:?}", other),
    }
    match Value::from_json(Format::Data, &Value::Data(bytes.clone()).to_json()) {
        Some(Value::Data(back)) => assert_eq!(back, bytes),
        other => panic!("{:?}", other),
    }
}

#[test]
fn byte_strings_are_arrays_of_numbers() {
    let json = Value::Data(vec![7, 9]).to_json();
    assert!(json_eq(&json, &JsonValue::Array(vec![JsonValue::Integer(7), JsonValue::Integer(9)])));
}

#[test]
fn from_json_refuses_other_kinds_and_ranges() {
    assert!(Value::from_json(Format::Bool, &JsonValue::Integer(1)).is_none());
    assert!(Value::from_json(Format::UInt8, &JsonValue::Integer(256)).is_none());
    assert!(Value::from_json(Format::UInt8, &JsonValue::Integer(-1)).is_none());
    assert!(Value::from_json(Format::UInt16, &JsonValue::Integer(65536)).is_none());
    assert!(Value::from_json(Format::UInt32, &JsonValue::Integer(1 << 32)).is_none());
    assert!(Value::from_json(Format::UInt64, &JsonValue::Integer(1 << 64)).is_none());
    assert!(Value::from_json(Format::Int32, &JsonValue::Integer(1 << 31)).is_none());
    assert!(Value::from_json(Format::Int32, &JsonValue::Integer(-(1 << 31) - 1)).is_none());
    assert!(Value::from_json(Format::Float, &JsonValue::Integer((1 << 24) + 1)).is_none());
    assert!(Value::from_json(Format::Float, &JsonValue::Integer(-(1 << 24) - 1)).is_none());
    assert!(Value::from_json(Format::Float, &JsonValue::Bool(true)).is_none());
    assert!(Value::from_json(Format::String, &JsonValue::Bool(true)).is_none());
    assert!(Value::from_json(Format::Tlv8, &JsonValue::String("AQ==".to_string())).is_none());
    assert!(Value::from_json(
        Format::Data,
        &JsonValue::Array(vec![JsonValue::Integer(1), JsonValue::Integer(256)])
    )
    .is_none());
    assert!(Value::from_json(Format::Data, &JsonValue::Array(vec![JsonValue::Bool(true)])).is_none());
    assert!(Value::from_json(Format::UInt8, &JsonValue::Null).is_none());
}

#[test]
fn from_json_accepts_range_limits() {
    assert!(matches!(Value::from_json(Format::UInt8, &JsonValue::Integer(255)), Some(Value::UInt8(255))));
    assert!(matches!(
        Value::from_json(Format::UInt64, &JsonValue::Integer(u64::MAX as i128)),
        Some(Value::UInt64(u64::MAX))
    ));
    assert!(matches!(
        Value::from_json(Format::Int32, &JsonValue::Integer(i32::MIN as i128)),
        Some(Value::Int32(i32::MIN))
    ));
}

#[test]
fn initial_values_are_zero_false_and_empty() {
    assert!(Value::initial(Format::Bool).same(&Value::Bool(false)));
    assert!(Value::initial(Format::UInt8).same(&Value::UInt8(0)));
    assert!(Value::initial(Format::Int32).same(&Value::Int32(0)));
    assert!(Value::initial(Format::Float).same(&Value::Float(0.0f32.to_bits())));
    assert!(Value::initial(Format::String).same(&Value::String(String::new())));
    assert!(Value::initial(Format::Tlv8).same(&Value::Tlv8(vec![])));
    assert!(Value::initial(Format::Data).same(&Value::Data(vec![])));
    for format in [
        Format::Bool,
        Format::UInt8,
        Format::UInt16,
        Format::UInt32,
        Format::UInt64,
        Format::Int32,
        Format::Float,
        Format::String,
        Format::Tlv8,
        Format::Data,
    ] {
        assert_eq!(Value::initial(format).format(), format);
    }
}

#[test]
fn same_tells_formats_apart() {
    assert!(!Value::UInt8(1).same(&Value::UInt16(1)));
    assert!(!Value::Tlv8(vec![1]).same(&Value::Data(vec![1])));
    assert!(Value::Data(vec![1]).same(&Value::Data(vec![1])));
    assert!(!Value::Data(vec![1]).same(&Value::Data(vec![1, 2])));
}

#[test]
fn float_order_agrees_with_the_numbers() {
    let numbers = [
        0.0f32,
        -0.0,
        1.0,
        -1.0,
        0.5,
        100.0,
        99.999,
        -100.0,
        f32::MIN,
        f32::MAX,
        f32::MIN_POSITIVE,
        -f32::MIN_POSITIVE,
        1.0e-45,
        f32::INFINITY,
        f32::NEG_INFINITY,
        f32::NAN,
        -f32::NAN,
    ];
    for a in numbers {
        for b in numbers {
            assert_eq!(float_less_or_equal(a.to_bits(), b.to_bits()), a <= b, "{} <= {}", a, b);
        }
    }
}

#[test]
fn integer_of_a_value() {
    assert_eq!(Value::UInt64(u64::MAX).integer(), Some(u64::MAX as i128));
    assert_eq!(Value::Int32(-5).integer(), Some(-5));
    assert_eq!(Value::Bool(true).integer(), None);
    assert_eq!(Value::Float(0).integer(), None);
}

#[test]
fn bytes_equal_compares_contents() {
    assert!(bytes_equal(&vec![], &vec![]));
    assert!(bytes_equal(&vec![1, 2], &vec![1, 2]));
    assert!(!bytes_equal(&vec![1, 2], &vec![1, 3]));
    assert!(!bytes_equal(&vec![1], &vec![1, 2]));
}

#[test]
fn format_names() {
    assert_eq!(Format::Bool.name(), "bool");
    assert_eq!(Format::UInt8.name(), "uint8");
    assert_eq!(Format::UInt16.name(), "uint16");
    assert_eq!(Format::UInt32.name(), "uint32");
    assert_eq!(Format::UInt64.name(), "uint64");
    assert_eq!(Format::Int32.name(), "int");
    assert_eq!(Format::Float.name(), "float");
    assert_eq!(Format::String.name(), "string");
    assert_eq!(Format::Tlv8.name(), "tlv8");
    assert_eq!(Format::Data.name(), "data");
}

#[test]
fn integers_become_the_floats_that_equal_them() {
    let mut samples: Vec<i128> = (-70000..=70000).collect();
    for shift in 0..=24 {
        let power = 1i128 << shift;
        for delta in [-3i128, -2, -1, 0, 1, 2, 3] {
            samples.push(power + delta);
            samples.push(-(power + delta));
        }
    }
    for i in (0..(1i128 << 24)).step_by(9973) {
        samples.push(i);
        samples.push(-i);
    }
    for i in samples {
        let expected = if i.abs() <= 1 << 24 { Some((i as f32).to_bits()) } else { None };
        assert_eq!(integer_to_float(i), expected, "{}", i);
    }
    assert_eq!(integer_to_float(0), Some(0));
    assert_eq!(integer_to_float(1), Some(0x3f80_0000));
    assert_eq!(integer_to_float(100), Some(0x42c8_0000));
    assert_eq!(integer_to_float(-2), Some(0xc000_0000));
    assert_eq!(integer_to_float(1 << 24), Some(0x4b80_0000));
    assert_eq!(integer_to_float(i128::MAX), None);
    assert_eq!(integer_to_float(i128::MIN), None);
}

#[test]
fn from_json_reads_integers_as_floats() {
    match Value::from_json(Format::Float, &JsonValue::Integer(22)) {
        Some(Value::Float(bits)) => assert_eq!(f32::from_bits(bits), 22.0),
        other => panic!("{:?}", other),
    }
    match Value::from_json(Format::Float, &JsonValue::Float(21.5f32.to_bits())) {
        Some(Value::Float(bits)) => assert_eq!(f32::from_bits(bits), 21.5),
        other => panic!("{:?}", other),
    }
}
