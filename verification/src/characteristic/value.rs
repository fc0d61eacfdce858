//! Typed characteristic values and their JSON form.

use vstd::prelude::*;
use crate::json::{array_view, lemma_array_view, JsonValue, JsonView};

verus! {

/// The format of a characteristic's value.
#[derive(Clone, Copy, Debug, PartialEq, Eq, Structural)]
pub enum Format {
    Bool,
    UInt8,
    UInt16,
    UInt32,
    UInt64,
    Int32,
    Float,
    String,
    Tlv8,
    Data,
}

impl Format {
    /// The name of the format in JSON.
    pub open spec fn spec_name(self) -> Seq<char> {
        match self {
            Format::Bool => "bool"@,
            Format::UInt8 => "uint8"@,
            Format::UInt16 => "uint16"@,
            Format::UInt32 => "uint32"@,
            Format::UInt64 => "uint64"@,
            Format::Int32 => "int"@,
            Format::Float => "float"@,
            Format::String => "string"@,
            Format::Tlv8 => "tlv8"@,
            Format::Data => "data"@,
        }
    }

    /// The name of the format in JSON.
    pub fn name(self) -> (name: &'static str)
        ensures
            name@ == self.spec_name(),
    {
        match self {
            Format::Bool => "bool",
            Format::UInt8 => "uint8",
            Format::UInt16 => "uint16",
            Format::UInt32 => "uint32",
            Format::UInt64 => "uint64",
            Format::Int32 => "int",
            Format::Float => "float",
            Format::String => "string",
            Format::Tlv8 => "tlv8",
            Format::Data => "data",
        }
    }
}

/// A characteristic value. `Float` holds the bit pattern of an IEEE 754
/// single-precision number.
#[derive(Debug)]
pub enum Value {
    Bool(bool),
    UInt8(u8),
    UInt16(u16),
    UInt32(u32),
    UInt64(u64),
    Int32(i32),
    Float(u32),
    String(String),
    Tlv8(Vec<u8>),
    Data(Vec<u8>),
}

/// The mathematical model of a [`Value`].
pub enum ValueView {
    Bool(bool),
    UInt8(u8),
    UInt16(u16),
    UInt32(u32),
    UInt64(u64),
    Int32(i32),
    Float(u32),
    String(Seq<char>),
    Tlv8(Seq<u8>),
    Data(Seq<u8>),
}

impl View for Value {
    type V = ValueView;

    open spec fn view(&self) -> ValueView {
        match self {
            Value::Bool(b) => ValueView::Bool(*b),
            Value::UInt8(n) => ValueView::UInt8(*n),
            Value::UInt16(n) => ValueView::UInt16(*n),
            Value::UInt32(n) => ValueView::UInt32(*n),
            Value::UInt64(n) => ValueView::UInt64(*n),
            Value::Int32(n) => ValueView::Int32(*n),
            Value::Float(bits) => ValueView::Float(*bits),
            Value::String(s) => ValueView::String(s@),
            Value::Tlv8(bytes) => ValueView::Tlv8(bytes@),
            Value::Data(bytes) => ValueView::Data(bytes@),
        }
    }
}

impl ValueView {
    /// The format that the value belongs to.
    pub open spec fn format(self) -> Format {
        match self {
            ValueView::Bool(_) => Format::Bool,
            ValueView::UInt8(_) => Format::UInt8,
            ValueView::UInt16(_) => Format::UInt16,
            ValueView::UInt32(_) => Format::UInt32,
            ValueView::UInt64(_) => Format::UInt64,
            ValueView::Int32(_) => Format::Int32,
            ValueView::Float(_) => Format::Float,
            ValueView::String(_) => Format::String,
            ValueView::Tlv8(_) => Format::Tlv8,
            ValueView::Data(_) => Format::Data,
        }
    }

    /// The integer that a value of an integer format denotes.
    pub open spec fn integer(self) -> Option<int> {
        match self {
            ValueView::UInt8(n) => Some(n as int),
            ValueView::UInt16(n) => Some(n as int),
            ValueView::UInt32(n) => Some(n as int),
            ValueView::UInt64(n) => Some(n as int),
            ValueView::Int32(n) => Some(n as int),
            _ => None,
        }
    }

    /// The value that a characteristic of the given format starts with.
    pub open spec fn initial(format: Format) -> ValueView {
        match format {
            Format::Bool => ValueView::Bool(false),
            Format::UInt8 => ValueView::UInt8(0),
            Format::UInt16 => ValueView::UInt16(0),
            Format::UInt32 => ValueView::UInt32(0),
            Format::UInt64 => ValueView::UInt64(0),
            Format::Int32 => ValueView::Int32(0),
            Format::Float => ValueView::Float(0),
            Format::String => ValueView::String(Seq::empty()),
            Format::Tlv8 => ValueView::Tlv8(Seq::empty()),
            Format::Data => ValueView::Data(Seq::empty()),
        }
    }
}

/// Whether the bit pattern is that of a NaN.
pub open spec fn float_is_nan(bits: u32) -> bool {
    bits % 0x8000_0000 > 0x7f80_0000
}

/// An integer that orders the single-precision numbers other than NaN as
/// their numeric values are ordered: the magnitude bits, negated where the
/// sign bit is set. Both zeroes have the key 0.
pub open spec fn float_key(bits: u32) -> int {
    if bits >= 0x8000_0000 {
        -(bits - 0x8000_0000)
    } else {
        bits as int
    }
}

/// Whether `a <= b` holds of the two single-precision numbers. It does not
/// where either is a NaN.
pub open spec fn float_le(a: u32, b: u32) -> bool {
    !float_is_nan(a) && !float_is_nan(b) && float_key(a) <= float_key(b)
}

/// Compares two single-precision numbers given by their bit patterns.
pub fn float_less_or_equal(a: u32, b: u32) -> (le: bool)
    ensures
        le == float_le(a, b),
{
    if a % 0x8000_0000 > 0x7f80_0000 || b % 0x8000_0000 > 0x7f80_0000 {
        return false;
    }
    let key_a: i64 = if a >= 0x8000_0000 { -((a - 0x8000_0000) as i64) } else { a as i64 };
    let key_b: i64 = if b >= 0x8000_0000 { -((b - 0x8000_0000) as i64) } else { b as i64 };
    key_a <= key_b
}

/// The greatest magnitude up to which every integer is a single-precision
/// number: 2 to the power of 24.
pub const FLOAT_EXACT_LIMIT: u32 = 0x100_0000;

/// The significand and the number of doublings that bring a magnitude into
/// the range of normal significands, from 2 to the power of 23 on.
pub open spec fn normalised(magnitude: nat, doublings: nat) -> (nat, nat)
    decreases 0x100_0000 - magnitude,
{
    if magnitude == 0 || magnitude >= 0x80_0000 {
        (magnitude, doublings)
    } else {
        normalised(2 * magnitude, doublings + 1)
    }
}

/// The bit pattern of the single-precision number that equals the integer,
/// for the integers of a magnitude of at most 2 to the power of 24, which all
/// are such numbers: the sign bit, the biased exponent and the significand
/// without its leading bit.
pub open spec fn float_of_integer(i: int) -> Option<u32> {
    let magnitude = if i < 0 {
        -i
    } else {
        i
    };
    let sign = if i < 0 {
        0x8000_0000int
    } else {
        0int
    };
    if i == 0 {
        Some(0u32)
    } else if magnitude > FLOAT_EXACT_LIMIT {
        None
    } else if magnitude == FLOAT_EXACT_LIMIT {
        Some((sign + 0x4b80_0000) as u32)
    } else {
        let (significand, doublings) = normalised(magnitude as nat, 0);
        Some((sign + (150 - doublings) * 0x80_0000 + (significand - 0x80_0000)) as u32)
    }
}

/// The bit pattern of the single-precision number that equals the integer.
pub fn integer_to_float(i: i128) -> (bits: Option<u32>)
    ensures
        bits == float_of_integer(i as int),
{
    if i == 0 {
        return Some(0);
    }
    if i > 0x100_0000 || i < -0x100_0000 {
        return None;
    }
    let sign: u32 = if i < 0 {
        0x8000_0000
    } else {
        0
    };
    let magnitude: u32 = if i < 0 {
        (-i) as u32
    } else {
        i as u32
    };
    if magnitude == 0x100_0000 {
        return Some(sign + 0x4b80_0000);
    }
    let mut significand: u32 = magnitude;
    let mut doublings: u32 = 0;
    while significand < 0x80_0000
        invariant
            0 < significand < 0x100_0000,
            doublings <= 23,
            significand >= power_of_two(doublings as nat),
            normalised(magnitude as nat, 0) == normalised(significand as nat, doublings as nat),
        decreases 0x100_0000 - significand,
    {
        proof {
            if doublings >= 23 {
                lemma_power_of_two_grows(23, doublings as nat);
                lemma_power_of_two_23();
            }
        }
        significand = significand * 2;
        doublings = doublings + 1;
    }
    Some(sign + (150 - doublings) * 0x80_0000 + (significand - 0x80_0000))
}

/// Two to the power of `n`.
pub open spec fn power_of_two(n: nat) -> nat
    decreases n,
{
    if n == 0 {
        1
    } else {
        2 * power_of_two((n - 1) as nat)
    }
}

/// The powers of two grow with the exponent.
pub proof fn lemma_power_of_two_grows(a: nat, b: nat)
    requires
        a <= b,
    ensures
        0 < power_of_two(a) <= power_of_two(b),
    decreases b,
{
    if a < b {
        lemma_power_of_two_grows(a, (b - 1) as nat);
    } else if a > 0 {
        lemma_power_of_two_grows((a - 1) as nat, (b - 1) as nat);
    }
}

/// Two to the power of 23.
pub proof fn lemma_power_of_two_23()
    ensures
        power_of_two(23) == 0x80_0000,
{
    reveal_with_fuel(power_of_two, 24);
}

/// Whether two byte strings are equal.
pub fn bytes_equal(a: &Vec<u8>, b: &Vec<u8>) -> (equal: bool)
    ensures
        equal == (a@ == b@),
{
    if a.len() != b.len() {
        return false;
    }
    let mut i: usize = 0;
    while i < a.len()
        invariant
            a@.len() == b@.len(),
            0 <= i <= a@.len(),
            forall|j: int| 0 <= j < i ==> a@[j] == b@[j],
        decreases a@.len() - i,
    {
        if a[i] != b[i] {
            return false;
        }
        i += 1;
    }
    assert(a@ =~= b@);
    true
}

impl Value {
    /// The format that the value belongs to.
    pub fn format(&self) -> (format: Format)
        ensures
            format == self@.format(),
    {
        match self {
            Value::Bool(_) => Format::Bool,
            Value::UInt8(_) => Format::UInt8,
            Value::UInt16(_) => Format::UInt16,
            Value::UInt32(_) => Format::UInt32,
            Value::UInt64(_) => Format::UInt64,
            Value::Int32(_) => Format::Int32,
            Value::Float(_) => Format::Float,
            Value::String(_) => Format::String,
            Value::Tlv8(_) => Format::Tlv8,
            Value::Data(_) => Format::Data,
        }
    }

    /// The value that a characteristic of the given format starts with:
    /// `false`, zero, the empty string or no bytes.
    pub fn initial(format: Format) -> (value: Value)
        ensures
            value@ == ValueView::initial(format),
    {
        match format {
            Format::Bool => Value::Bool(false),
            Format::UInt8 => Value::UInt8(0),
            Format::UInt16 => Value::UInt16(0),
            Format::UInt32 => Value::UInt32(0),
            Format::UInt64 => Value::UInt64(0),
            Format::Int32 => Value::Int32(0),
            Format::Float => Value::Float(0),
            Format::String => Value::String(String::new()),
            Format::Tlv8 => Value::Tlv8(Vec::new()),
            Format::Data => Value::Data(Vec::new()),
        }
    }

    /// The integer that a value of an integer format denotes.
    pub fn integer(&self) -> (n: Option<i128>)
        ensures
            n is Some <==> self@.integer() is Some,
            n is Some ==> n->0 == self@.integer()->0,
    {
        match self {
            Value::UInt8(n) => Some(*n as i128),
            Value::UInt16(n) => Some(*n as i128),
            Value::UInt32(n) => Some(*n as i128),
            Value::UInt64(n) => Some(*n as i128),
            Value::Int32(n) => Some(*n as i128),
            _ => None,
        }
    }

    /// Whether two values are the same value of the same format.
    pub fn same(&self, other: &Value) -> (same: bool)
        ensures
            same == (self@ == other@),
    {
        match (self, other) {
            (Value::Bool(a), Value::Bool(b)) => *a == *b,
            (Value::UInt8(a), Value::UInt8(b)) => *a == *b,
            (Value::UInt16(a), Value::UInt16(b)) => *a == *b,
            (Value::UInt32(a), Value::UInt32(b)) => *a == *b,
            (Value::UInt64(a), Value::UInt64(b)) => *a == *b,
            (Value::Int32(a), Value::Int32(b)) => *a == *b,
            (Value::Float(a), Value::Float(b)) => *a == *b,
            (Value::String(a), Value::String(b)) => *a == *b,
            (Value::Tlv8(a), Value::Tlv8(b)) => bytes_equal(a, b),
            (Value::Data(a), Value::Data(b)) => bytes_equal(a, b),
            _ => false,
        }
    }
}

impl Clone for Value {
    fn clone(&self) -> (copy: Value)
        ensures
            copy@ == self@,
    {
        match self {
            Value::Bool(b) => Value::Bool(*b),
            Value::UInt8(n) => Value::UInt8(*n),
            Value::UInt16(n) => Value::UInt16(*n),
            Value::UInt32(n) => Value::UInt32(*n),
            Value::UInt64(n) => Value::UInt64(*n),
            Value::Int32(n) => Value::Int32(*n),
            Value::Float(bits) => Value::Float(*bits),
            Value::String(s) => Value::String(s.clone()),
            Value::Tlv8(bytes) => Value::Tlv8(bytes.clone()),
            Value::Data(bytes) => Value::Data(bytes.clone()),
        }
    }
}

/// The JSON array of the bytes' numbers.
pub open spec fn json_of_bytes(bytes: Seq<u8>) -> Seq<JsonView> {
    Seq::new(bytes.len(), |i: int| JsonView::Integer(bytes[i] as int))
}

/// Whether every item is an integer that fits in a byte.
pub open spec fn is_byte_array(items: Seq<JsonView>) -> bool {
    forall|i: int|
        0 <= i < items.len() ==> (#[trigger] items[i]) is Integer && 0 <= items[i]->Integer_0 <= 255
}

/// The bytes that an array of byte-sized integers lists.
pub open spec fn bytes_of_json(items: Seq<JsonView>) -> Seq<u8> {
    Seq::new(items.len(), |i: int| items[i]->Integer_0 as u8)
}

/// The JSON form of a value: booleans, numbers and strings as themselves,
/// byte strings as arrays of their bytes' numbers.
pub open spec fn json_of_value(value: ValueView) -> JsonView {
    match value {
        ValueView::Bool(b) => JsonView::Bool(b),
        ValueView::UInt8(n) => JsonView::Integer(n as int),
        ValueView::UInt16(n) => JsonView::Integer(n as int),
        ValueView::UInt32(n) => JsonView::Integer(n as int),
        ValueView::UInt64(n) => JsonView::Integer(n as int),
        ValueView::Int32(n) => JsonView::Integer(n as int),
        ValueView::Float(bits) => JsonView::Float(bits),
        ValueView::String(s) => JsonView::String(s),
        ValueView::Tlv8(bytes) => JsonView::Array(json_of_bytes(bytes)),
        ValueView::Data(bytes) => JsonView::Array(json_of_bytes(bytes)),
    }
}

/// The value of the given format that a JSON value denotes, if it denotes
/// one: a boolean for `Bool`; an integer within the format's range for the
/// integer formats; for `Float` a number with a fraction, or an integer of a
/// magnitude of at most 2 to the power of 24; a string for `String`; an array
/// of byte-sized integers for `Tlv8` and `Data`.
pub open spec fn value_of_json(format: Format, json: JsonView) -> Option<ValueView> {
    match (format, json) {
        (Format::Bool, JsonView::Bool(b)) => Some(ValueView::Bool(b)),
        (Format::UInt8, JsonView::Integer(i)) => if 0 <= i <= u8::MAX {
            Some(ValueView::UInt8(i as u8))
        } else {
            None
        },
        (Format::UInt16, JsonView::Integer(i)) => if 0 <= i <= u16::MAX {
            Some(ValueView::UInt16(i as u16))
        } else {
            None
        },
        (Format::UInt32, JsonView::Integer(i)) => if 0 <= i <= u32::MAX {
            Some(ValueView::UInt32(i as u32))
        } else {
            None
        },
        (Format::UInt64, JsonView::Integer(i)) => if 0 <= i <= u64::MAX {
            Some(ValueView::UInt64(i as u64))
        } else {
            None
        },
        (Format::Int32, JsonView::Integer(i)) => if i32::MIN <= i <= i32::MAX {
            Some(ValueView::Int32(i as i32))
        } else {
            None
        },
        (Format::Float, JsonView::Float(bits)) => Some(ValueView::Float(bits)),
        (Format::Float, JsonView::Integer(i)) => match float_of_integer(i) {
            Some(bits) => Some(ValueView::Float(bits)),
            None => None,
        },
        (Format::String, JsonView::String(s)) => Some(ValueView::String(s)),
        (Format::Tlv8, JsonView::Array(items)) => if is_byte_array(items) {
            Some(ValueView::Tlv8(bytes_of_json(items)))
        } else {
            None
        },
        (Format::Data, JsonView::Array(items)) => if is_byte_array(items) {
            Some(ValueView::Data(bytes_of_json(items)))
        } else {
            None
        },
        _ => None,
    }
}

/// Encoding a value to JSON and decoding it again under the value's own
/// format gives the value back; for `Tlv8` and `Data`, the same bytes.
pub proof fn lemma_json_round_trip(value: ValueView)
    ensures
        value_of_json(value.format(), json_of_value(value)) == Some(value),
{
    match value {
        ValueView::Tlv8(bytes) => {
            assert(is_byte_array(json_of_bytes(bytes)));
            assert(bytes_of_json(json_of_bytes(bytes)) =~= bytes);
        },
        ValueView::Data(bytes) => {
            assert(is_byte_array(json_of_bytes(bytes)));
            assert(bytes_of_json(json_of_bytes(bytes)) =~= bytes);
        },
        _ => {},
    }
}

/// The JSON array of the bytes' numbers.
fn bytes_to_json(bytes: &Vec<u8>) -> (json: JsonValue)
    ensures
        json@ == JsonView::Array(json_of_bytes(bytes@)),
{
    let mut items: Vec<JsonValue> = Vec::new();
    let mut i: usize = 0;
    while i < bytes.len()
        invariant
            0 <= i <= bytes@.len(),
            items@.len() == i,
            forall|j: int| 0 <= j < i ==> (#[trigger] items@[j])@ == JsonView::Integer(bytes@[j] as int),
        decreases bytes@.len() - i,
    {
        items.push(JsonValue::Integer(bytes[i] as i128));
        i += 1;
    }
    proof {
        lemma_array_view(items);
        assert(array_view(items@) =~= json_of_bytes(bytes@));
    }
    JsonValue::Array(items)
}

/// The bytes that a JSON array of byte-sized integers lists.
fn bytes_from_json(items: &Vec<JsonValue>) -> (bytes: Option<Vec<u8>>)
    ensures
        bytes is Some <==> is_byte_array(array_view(items@)),
        bytes is Some ==> bytes->0@ == bytes_of_json(array_view(items@)),
{
    let ghost model = array_view(items@);
    let mut bytes: Vec<u8> = Vec::new();
    let mut i: usize = 0;
    while i < items.len()
        invariant
            0 <= i <= items@.len(),
            model == array_view(items@),
            bytes@.len() == i,
            forall|j: int| 0 <= j < i ==> (#[trigger] model[j]) is Integer && 0 <= model[j]->Integer_0 <= 255,
            forall|j: int| 0 <= j < i ==> #[trigger] bytes@[j] == model[j]->Integer_0 as u8,
        decreases items@.len() - i,
    {
        assert(model[i as int] == items@[i as int]@);
        match &items[i] {
            JsonValue::Integer(n) => {
                if 0 <= *n && *n <= 255 {
                    bytes.push(*n as u8);
                } else {
                    assert(!(0 <= model[i as int]->Integer_0 <= 255));
                    return None;
                }
            },
            _ => {
                assert(!(model[i as int] is Integer));
                return None;
            },
        }
        i += 1;
    }
    assert(bytes@ =~= bytes_of_json(model));
    Some(bytes)
}

impl Value {
    /// The JSON form of the value.
    pub fn to_json(&self) -> (json: JsonValue)
        ensures
            json@ == json_of_value(self@),
    {
        match self {
            Value::Bool(b) => JsonValue::Bool(*b),
            Value::UInt8(n) => JsonValue::Integer(*n as i128),
            Value::UInt16(n) => JsonValue::Integer(*n as i128),
            Value::UInt32(n) => JsonValue::Integer(*n as i128),
            Value::UInt64(n) => JsonValue::Integer(*n as i128),
            Value::Int32(n) => JsonValue::Integer(*n as i128),
            Value::Float(bits) => JsonValue::Float(*bits),
            Value::String(s) => JsonValue::String(s.clone()),
            Value::Tlv8(bytes) => bytes_to_json(bytes),
            Value::Data(bytes) => bytes_to_json(bytes),
        }
    }

    /// Decodes a JSON value as a value of the given format. `None` where the
    /// JSON value denotes no value of that format.
    pub fn from_json(format: Format, json: &JsonValue) -> (value: Option<Value>)
        ensures
            value is Some <==> value_of_json(format, json@) is Some,
            value is Some ==> value->0@ == value_of_json(format, json@)->0,
    {
        match (format, json) {
            (Format::Bool, JsonValue::Bool(b)) => Some(Value::Bool(*b)),
            (Format::UInt8, JsonValue::Integer(i)) => if 0 <= *i && *i <= 0xff {
                Some(Value::UInt8(*i as u8))
            } else {
                None
            },
            (Format::UInt16, JsonValue::Integer(i)) => if 0 <= *i && *i <= 0xffff {
                Some(Value::UInt16(*i as u16))
            } else {
                None
            },
            (Format::UInt32, JsonValue::Integer(i)) => if 0 <= *i && *i <= 0xffff_ffff {
                Some(Value::UInt32(*i as u32))
            } else {
                None
            },
            (Format::UInt64, JsonValue::Integer(i)) => if 0 <= *i && *i <= 0xffff_ffff_ffff_ffff {
                Some(Value::UInt64(*i as u64))
            } else {
                None
            },
            (Format::Int32, JsonValue::Integer(i)) => if -0x8000_0000 <= *i && *i <= 0x7fff_ffff {
                Some(Value::Int32(*i as i32))
            } else {
                None
            },
            (Format::Float, JsonValue::Float(bits)) => Some(Value::Float(*bits)),
            (Format::Float, JsonValue::Integer(i)) => match integer_to_float(*i) {
                Some(bits) => Some(Value::Float(bits)),
                None => None,
            },
            (Format::String, JsonValue::String(s)) => Some(Value::String(s.clone())),
            (Format::Tlv8, JsonValue::Array(items)) => {
                proof {
                    lemma_array_view(*items);
                }
                match bytes_from_json(items) {
                    Some(bytes) => Some(Value::Tlv8(bytes)),
                    None => None,
                }
            },
            (Format::Data, JsonValue::Array(items)) => {
                proof {
                    lemma_array_view(*items);
                }
                match bytes_from_json(items) {
                    Some(bytes) => Some(Value::Data(bytes)),
                    None => None,
                }
            },
            _ => None,
        }
    }
}

} // verus!
