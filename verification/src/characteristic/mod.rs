//! Characteristics: the typed leaves of the accessory tree.

pub mod generated;
pub mod value;

use vstd::prelude::*;
use vstd::string::*;
use crate::characteristic::value::{
    float_le, float_less_or_equal, json_of_value, Format, Value, ValueView,
};
use crate::error::Error;
use crate::hap_type::{shortened_uuid, HapType};
use crate::json::{
    array_view, object_view, optional, push_member, push_optional, JsonValue, JsonView,
};

verus! {

/// The unit of a characteristic's value.
#[derive(Clone, Copy, Debug, PartialEq, Eq, Structural)]
pub enum Unit {
    Percentage,
    ArcDegrees,
    Celsius,
    Lux,
    Seconds,
}

/// A permission of a characteristic.
#[derive(Clone, Copy, Debug, PartialEq, Eq, Structural)]
pub enum Perm {
    PairedRead,
    PairedWrite,
    Events,
    AdditionalAuthorization,
    TimedWrite,
    Hidden,
}

impl Unit {
    /// The name of the unit in JSON.
    pub open spec fn spec_name(self) -> Seq<char> {
        match self {
            Unit::Percentage => "percentage"@,
            Unit::ArcDegrees => "arcdegrees"@,
            Unit::Celsius => "celsius"@,
            Unit::Lux => "lux"@,
            Unit::Seconds => "seconds"@,
        }
    }

    /// The name of the unit in JSON.
    pub fn name(self) -> (name: &'static str)
        ensures
            name@ == self.spec_name(),
    {
        match self {
            Unit::Percentage => "percentage",
            Unit::ArcDegrees => "arcdegrees",
            Unit::Celsius => "celsius",
            Unit::Lux => "lux",
            Unit::Seconds => "seconds",
        }
    }
}

impl Perm {
    /// The name of the permission in JSON.
    pub open spec fn spec_name(self) -> Seq<char> {
        match self {
            Perm::PairedRead => "pr"@,
            Perm::PairedWrite => "pw"@,
            Perm::Events => "ev"@,
            Perm::AdditionalAuthorization => "aa"@,
            Perm::TimedWrite => "tw"@,
            Perm::Hidden => "hd"@,
        }
    }

    /// The name of the permission in JSON.
    pub fn name(self) -> (name: &'static str)
        ensures
            name@ == self.spec_name(),
    {
        match self {
            Perm::PairedRead => "pr",
            Perm::PairedWrite => "pw",
            Perm::Events => "ev",
            Perm::AdditionalAuthorization => "aa",
            Perm::TimedWrite => "tw",
            Perm::Hidden => "hd",
        }
    }
}

/// The JSON array of the names of the permissions.
pub open spec fn perms_json(perms: Seq<Perm>) -> JsonView {
    JsonView::Array(Seq::new(perms.len(), |i: int| JsonView::String(perms[i].spec_name())))
}

/// The JSON array of the names of the permissions.
pub fn perms_to_json(perms: &Vec<Perm>) -> (json: JsonValue)
    ensures
        json@ == perms_json(perms@),
{
    let mut items: Vec<JsonValue> = Vec::new();
    let mut i: usize = 0;
    while i < perms.len()
        invariant
            0 <= i <= perms@.len(),
            items@.len() == i,
            forall|j: int|
                0 <= j < i ==> (#[trigger] items@[j])@ == JsonView::String(perms@[j].spec_name()),
        decreases perms@.len() - i,
    {
        items.push(JsonValue::text(perms[i].name()));
        i += 1;
    }
    assert(array_view(items@) =~= perms_json(perms@)->Array_0);
    JsonValue::array(items)
}

/// The HAP status code of a value that the characteristic does not admit.
pub const INVALID_VALUE_IN_REQUEST: i32 = -70410;

/// The models of a list of values.
pub open spec fn values_view(values: Seq<Value>) -> Seq<ValueView> {
    Seq::new(values.len(), |i: int| values[i]@)
}

/// The model of an optional value.
pub open spec fn value_option_view(value: Option<Value>) -> Option<ValueView> {
    match value {
        Some(v) => Some(v@),
        None => None,
    }
}

/// The model of an optional list of values.
pub open spec fn values_option_view(values: Option<Vec<Value>>) -> Option<Seq<ValueView>> {
    match values {
        Some(v) => Some(values_view(v@)),
        None => None,
    }
}

/// What a characteristic is made from: its type, format and permissions, and
/// the unit and constraints that its definition carries.
pub struct Inner {
    pub hap_type: HapType,
    pub format: Format,
    pub perms: Vec<Perm>,
    pub unit: Option<Unit>,
    pub max_value: Option<Value>,
    pub min_value: Option<Value>,
    pub step_value: Option<Value>,
    pub max_len: Option<u16>,
    pub max_data_len: Option<u32>,
    pub valid_values: Option<Vec<Value>>,
}

impl Inner {
    /// A definition without unit and constraints.
    pub fn new(hap_type: HapType, format: Format, perms: Vec<Perm>) -> (inner: Inner)
        ensures
            inner.hap_type == hap_type,
            inner.format == format,
            inner.perms == perms,
            inner.unit is None,
            inner.max_value is None,
            inner.min_value is None,
            inner.step_value is None,
            inner.max_len is None,
            inner.max_data_len is None,
            inner.valid_values is None,
    {
        Inner {
            hap_type,
            format,
            perms,
            unit: None,
            max_value: None,
            min_value: None,
            step_value: None,
            max_len: None,
            max_data_len: None,
            valid_values: None,
        }
    }
}

/// A characteristic: a typed value with its instance id, permissions and
/// constraints.
#[derive(Debug)]
pub struct Characteristic {
    id: u64,
    accessory_id: u64,
    hap_type: HapType,
    perms: Vec<Perm>,
    event_notifications: Option<bool>,
    value: Value,
    unit: Option<Unit>,
    max_value: Option<Value>,
    min_value: Option<Value>,
    step_value: Option<Value>,
    max_len: Option<u16>,
    max_data_len: Option<u32>,
    valid_values: Option<Vec<Value>>,
}

/// The mathematical model of a [`Characteristic`].
pub struct CharacteristicView {
    pub id: u64,
    pub accessory_id: u64,
    pub hap_type: Seq<char>,
    pub perms: Seq<Perm>,
    pub event_notifications: Option<bool>,
    pub value: ValueView,
    pub unit: Option<Unit>,
    pub max_value: Option<ValueView>,
    pub min_value: Option<ValueView>,
    pub step_value: Option<ValueView>,
    pub max_len: Option<u16>,
    pub max_data_len: Option<u32>,
    pub valid_values: Option<Seq<ValueView>>,
}

/// The distance between two integers.
pub open spec fn distance(a: int, b: int) -> int {
    if a <= b {
        b - a
    } else {
        a - b
    }
}

impl CharacteristicView {
    /// The format of the characteristic: that of its value.
    pub open spec fn format(self) -> Format {
        self.value.format()
    }

    /// Whether the characteristic has the permission.
    pub open spec fn has_perm(self, perm: Perm) -> bool {
        self.perms.contains(perm)
    }

    /// The integer from which steps are counted: the minimum, or zero where
    /// there is none.
    pub open spec fn step_base(self) -> int {
        match self.min_value {
            Some(min) => match min.integer() {
                Some(m) => m,
                None => 0,
            },
            None => 0,
        }
    }

    /// Whether the integer lies within the minimum and maximum, on a step,
    /// and among the valid values, as far as each of them is set. A
    /// constraint that is no integer does not bear on integers, nor a step
    /// that is not positive.
    pub open spec fn admits_integer(self, i: int) -> bool {
        &&& match self.min_value {
            Some(min) => min.integer() is Some ==> min.integer()->0 <= i,
            None => true,
        }
        &&& match self.max_value {
            Some(max) => max.integer() is Some ==> i <= max.integer()->0,
            None => true,
        }
        &&& match self.step_value {
            Some(step) => step.integer() is Some && step.integer()->0 > 0 ==> distance(
                self.step_base(),
                i,
            ) % step.integer()->0 == 0,
            None => true,
        }
        &&& match self.valid_values {
            Some(valid) => exists|j: int|
                0 <= j < valid.len() && (#[trigger] valid[j]).integer() == Some(i),
            None => true,
        }
    }

    /// Whether the single-precision number is no NaN and lies within the
    /// minimum and maximum, as far as they are set and are such numbers.
    pub open spec fn admits_float(self, bits: u32) -> bool {
        &&& float_le(bits, bits)
        &&& match self.min_value {
            Some(ValueView::Float(min)) => float_le(min, bits),
            _ => true,
        }
        &&& match self.max_value {
            Some(ValueView::Float(max)) => float_le(bits, max),
            _ => true,
        }
    }

    /// Whether the characteristic may take the value: it has the
    /// characteristic's format and meets the constraints. Strings are held to
    /// the maximum length in characters, byte strings to the maximum data
    /// length.
    pub open spec fn admits(self, value: ValueView) -> bool {
        &&& value.format() == self.format()
        &&& match value {
            ValueView::Bool(_) => true,
            ValueView::Float(bits) => self.admits_float(bits),
            ValueView::String(s) => match self.max_len {
                Some(n) => s.len() <= n,
                None => true,
            },
            ValueView::Tlv8(bytes) => match self.max_data_len {
                Some(n) => bytes.len() <= n,
                None => true,
            },
            ValueView::Data(bytes) => match self.max_data_len {
                Some(n) => bytes.len() <= n,
                None => true,
            },
            _ => self.admits_integer(value.integer()->0),
        }
    }

    /// The characteristic with another value.
    pub open spec fn with_value(self, value: ValueView) -> CharacteristicView {
        CharacteristicView { value, ..self }
    }
}

/// The model of a characteristic as its definition makes it: without ids,
/// event notifications, unit and constraints, holding the initial value of
/// its format.
pub open spec fn plain(hap_type: Seq<char>, format: Format, perms: Seq<Perm>) -> CharacteristicView {
    CharacteristicView {
        id: 0,
        accessory_id: 0,
        hap_type,
        perms,
        event_notifications: None,
        value: ValueView::initial(format),
        unit: None,
        max_value: None,
        min_value: None,
        step_value: None,
        max_len: None,
        max_data_len: None,
        valid_values: None,
    }
}

impl View for Characteristic {
    type V = CharacteristicView;

    closed spec fn view(&self) -> CharacteristicView {
        CharacteristicView {
            id: self.id,
            accessory_id: self.accessory_id,
            hap_type: self.hap_type@,
            perms: self.perms@,
            event_notifications: self.event_notifications,
            value: self.value@,
            unit: self.unit,
            max_value: value_option_view(self.max_value),
            min_value: value_option_view(self.min_value),
            step_value: value_option_view(self.step_value),
            max_len: self.max_len,
            max_data_len: self.max_data_len,
            valid_values: values_option_view(self.valid_values),
        }
    }
}

/// Whether one of the values denotes the integer.
fn lists_integer(values: &Vec<Value>, i: i128) -> (listed: bool)
    ensures
        listed == exists|j: int|
            0 <= j < values@.len() && (#[trigger] values_view(values@)[j]).integer() == Some(
                i as int,
            ),
{
    let ghost model = values_view(values@);
    let mut j: usize = 0;
    while j < values.len()
        invariant
            0 <= j <= values@.len(),
            model == values_view(values@),
            forall|k: int| 0 <= k < j ==> (#[trigger] model[k]).integer() != Some(i as int),
        decreases values@.len() - j,
    {
        assert(model[j as int] == values@[j as int]@);
        if let Some(n) = values[j].integer() {
            if n == i {
                return true;
            }
        }
        j += 1;
    }
    false
}

impl Characteristic {
    /// A characteristic of the given definition. It has no instance id yet
    /// (both ids are zero), no event notifications, and the initial value of
    /// its format.
    pub fn new(inner: Inner) -> (characteristic: Characteristic)
        ensures
            characteristic@ == (CharacteristicView {
                id: 0,
                accessory_id: 0,
                hap_type: inner.hap_type@,
                perms: inner.perms@,
                event_notifications: None,
                value: ValueView::initial(inner.format),
                unit: inner.unit,
                max_value: value_option_view(inner.max_value),
                min_value: value_option_view(inner.min_value),
                step_value: value_option_view(inner.step_value),
                max_len: inner.max_len,
                max_data_len: inner.max_data_len,
                valid_values: values_option_view(inner.valid_values),
            }),
    {
        Characteristic {
            id: 0,
            accessory_id: 0,
            hap_type: inner.hap_type,
            perms: inner.perms,
            event_notifications: None,
            value: Value::initial(inner.format),
            unit: inner.unit,
            max_value: inner.max_value,
            min_value: inner.min_value,
            step_value: inner.step_value,
            max_len: inner.max_len,
            max_data_len: inner.max_data_len,
            valid_values: inner.valid_values,
        }
    }

    /// The instance id.
    pub fn get_id(&self) -> (id: u64)
        ensures
            id == self@.id,
    {
        self.id
    }

    /// Sets the instance id.
    pub fn set_id(&mut self, id: u64)
        ensures
            final(self)@ == (CharacteristicView { id, ..old(self)@ }),
    {
        self.id = id;
    }

    /// The id of the accessory that the characteristic belongs to.
    pub fn get_accessory_id(&self) -> (accessory_id: u64)
        ensures
            accessory_id == self@.accessory_id,
    {
        self.accessory_id
    }

    /// Sets the id of the accessory that the characteristic belongs to.
    pub fn set_accessory_id(&mut self, accessory_id: u64)
        ensures
            final(self)@ == (CharacteristicView { accessory_id, ..old(self)@ }),
    {
        self.accessory_id = accessory_id;
    }

    /// The type.
    pub fn get_type(&self) -> (hap_type: &HapType)
        ensures
            hap_type@ == self@.hap_type,
    {
        &self.hap_type
    }

    /// The format.
    pub fn get_format(&self) -> (format: Format)
        ensures
            format == self@.format(),
    {
        self.value.format()
    }

    /// The permissions.
    pub fn get_perms(&self) -> (perms: &Vec<Perm>)
        ensures
            perms@ == self@.perms,
    {
        &self.perms
    }

    /// Whether the characteristic has the permission.
    pub fn has_perm(&self, perm: Perm) -> (has: bool)
        ensures
            has == self@.has_perm(perm),
    {
        let mut i: usize = 0;
        while i < self.perms.len()
            invariant
                0 <= i <= self.perms@.len(),
                forall|j: int| 0 <= j < i ==> self.perms@[j] != perm,
            decreases self.perms@.len() - i,
        {
            if self.perms[i] == perm {
                return true;
            }
            i += 1;
        }
        false
    }

    /// Whether event notifications were switched on or off, if ever.
    pub fn get_event_notifications(&self) -> (ev: Option<bool>)
        ensures
            ev == self@.event_notifications,
    {
        self.event_notifications
    }

    /// Switches event notifications on or off.
    pub fn set_event_notifications(&mut self, ev: Option<bool>)
        ensures
            final(self)@ == (CharacteristicView { event_notifications: ev, ..old(self)@ }),
    {
        self.event_notifications = ev;
    }

    /// The current value.
    pub fn get_value(&self) -> (value: Value)
        ensures
            value@ == self@.value,
    {
        self.value.clone()
    }

    /// The unit.
    pub fn get_unit(&self) -> (unit: Option<Unit>)
        ensures
            unit == self@.unit,
    {
        self.unit
    }

    /// The maximum value.
    pub fn get_max_value(&self) -> (max: Option<Value>)
        ensures
            value_option_view(max) == self@.max_value,
    {
        match &self.max_value {
            Some(v) => Some(v.clone()),
            None => None,
        }
    }

    /// The minimum value.
    pub fn get_min_value(&self) -> (min: Option<Value>)
        ensures
            value_option_view(min) == self@.min_value,
    {
        match &self.min_value {
            Some(v) => Some(v.clone()),
            None => None,
        }
    }

    /// The step value.
    pub fn get_step_value(&self) -> (step: Option<Value>)
        ensures
            value_option_view(step) == self@.step_value,
    {
        match &self.step_value {
            Some(v) => Some(v.clone()),
            None => None,
        }
    }

    /// The maximum length of a string value, in characters.
    pub fn get_max_len(&self) -> (max_len: Option<u16>)
        ensures
            max_len == self@.max_len,
    {
        self.max_len
    }

    /// The maximum length of a byte string value.
    pub fn get_max_data_len(&self) -> (max_data_len: Option<u32>)
        ensures
            max_data_len == self@.max_data_len,
    {
        self.max_data_len
    }

    fn admits_integer(&self, i: i128) -> (admits: bool)
        requires
            i32::MIN <= i <= u64::MAX,
        ensures
            admits == self@.admits_integer(i as int),
    {
        let mut base: i128 = 0;
        if let Some(min) = &self.min_value {
            if let Some(m) = min.integer() {
                if m > i {
                    return false;
                }
                base = m;
            }
        }
        if let Some(max) = &self.max_value {
            if let Some(m) = max.integer() {
                if i > m {
                    return false;
                }
            }
        }
        if let Some(step) = &self.step_value {
            if let Some(k) = step.integer() {
                if k > 0 {
                    let d: i128 = if base <= i { i - base } else { base - i };
                    if d % k != 0 {
                        return false;
                    }
                }
            }
        }
        match &self.valid_values {
            Some(valid) => lists_integer(valid, i),
            None => true,
        }
    }

    fn admits_float(&self, bits: u32) -> (admits: bool)
        ensures
            admits == self@.admits_float(bits),
    {
        if !float_less_or_equal(bits, bits) {
            return false;
        }
        if let Some(Value::Float(min)) = &self.min_value {
            if !float_less_or_equal(*min, bits) {
                return false;
            }
        }
        if let Some(Value::Float(max)) = &self.max_value {
            if !float_less_or_equal(bits, *max) {
                return false;
            }
        }
        true
    }

    /// Whether the characteristic may take the value.
    pub fn admits(&self, value: &Value) -> (admits: bool)
        ensures
            admits == self@.admits(value@),
    {
        if value.format() != self.value.format() {
            return false;
        }
        match value {
            Value::Bool(_) => true,
            Value::Float(bits) => self.admits_float(*bits),
            Value::String(s) => match self.max_len {
                Some(n) => s.as_str().unicode_len() <= n as usize,
                None => true,
            },
            Value::Tlv8(bytes) => match self.max_data_len {
                Some(n) => bytes.len() <= n as usize,
                None => true,
            },
            Value::Data(bytes) => match self.max_data_len {
                Some(n) => bytes.len() <= n as usize,
                None => true,
            },
            _ => match value.integer() {
                Some(i) => self.admits_integer(i),
                None => false,
            },
        }
    }

    /// Commits a value. The value is taken where the characteristic admits
    /// it, and the result says whether it differs from the value before.
    /// Otherwise nothing changes and the error is the HAP status of an
    /// invalid value.
    pub fn set_value(&mut self, value: Value) -> (result: Result<bool, Error>)
        ensures
            match result {
                Ok(changed) => {
                    &&& old(self)@.admits(value@)
                    &&& final(self)@ == old(self)@.with_value(value@)
                    &&& changed == (old(self)@.value != value@)
                },
                Err(e) => {
                    &&& !old(self)@.admits(value@)
                    &&& e == Error::HapStatus(INVALID_VALUE_IN_REQUEST)
                    &&& final(self)@ == old(self)@
                },
            },
    {
        if !self.admits(&value) {
            return Err(Error::HapStatus(INVALID_VALUE_IN_REQUEST));
        }
        let changed = !self.value.same(&value);
        self.value = value;
        Ok(changed)
    }
}

/// The JSON form of an optional value.
pub open spec fn value_option_json(value: Option<ValueView>) -> Option<JsonView> {
    match value {
        Some(v) => Some(json_of_value(v)),
        None => None,
    }
}

/// The JSON array of the values.
pub open spec fn values_json(values: Seq<ValueView>) -> JsonView {
    JsonView::Array(Seq::new(values.len(), |i: int| json_of_value(values[i])))
}

/// The JSON object under which the accessory database lists a
/// characteristic: its instance id, shortened type, format and permissions,
/// then, as far as they are there, the state of its event notifications, its
/// value if it may be read, its unit and its constraints.
pub open spec fn characteristic_json(c: CharacteristicView) -> JsonView {
    JsonView::Object(
        seq![
            ("iid"@, JsonView::Integer(c.id as int)),
            ("type"@, JsonView::String(shortened_uuid(c.hap_type))),
            ("format"@, JsonView::String(c.format().spec_name())),
            ("perms"@, perms_json(c.perms)),
        ] + optional(
            "ev"@,
            match c.event_notifications {
                Some(on) => Some(JsonView::Bool(on)),
                None => None,
            },
        ) + optional(
            "value"@,
            if c.has_perm(Perm::PairedRead) {
                Some(json_of_value(c.value))
            } else {
                None
            },
        ) + optional(
            "unit"@,
            match c.unit {
                Some(u) => Some(JsonView::String(u.spec_name())),
                None => None,
            },
        ) + optional("maxValue"@, value_option_json(c.max_value)) + optional(
            "minValue"@,
            value_option_json(c.min_value),
        ) + optional("minStep"@, value_option_json(c.step_value)) + optional(
            "maxLen"@,
            match c.max_len {
                Some(n) => Some(JsonView::Integer(n as int)),
                None => None,
            },
        ) + optional(
            "maxDataLen"@,
            match c.max_data_len {
                Some(n) => Some(JsonView::Integer(n as int)),
                None => None,
            },
        ) + optional(
            "valid-values"@,
            match c.valid_values {
                Some(values) => Some(values_json(values)),
                None => None,
            },
        ),
    )
}

/// The JSON form of an optional value.
fn value_option_to_json(value: &Option<Value>) -> (json: Option<JsonValue>)
    ensures
        (match json {
            Some(j) => Some(j@),
            None => None,
        }) == value_option_json(value_option_view(*value)),
{
    match value {
        Some(v) => Some(v.to_json()),
        None => None,
    }
}

/// The JSON array of the values.
fn values_to_json(values: &Vec<Value>) -> (json: JsonValue)
    ensures
        json@ == values_json(values_view(values@)),
{
    let mut items: Vec<JsonValue> = Vec::new();
    let mut i: usize = 0;
    while i < values.len()
        invariant
            0 <= i <= values@.len(),
            items@.len() == i,
            forall|j: int| 0 <= j < i ==> (#[trigger] items@[j])@ == json_of_value(values@[j]@),
        decreases values@.len() - i,
    {
        items.push(values[i].to_json());
        i += 1;
    }
    assert(array_view(items@) =~= values_json(values_view(values@))->Array_0);
    JsonValue::array(items)
}

impl Characteristic {
    /// The JSON object under which the accessory database lists the
    /// characteristic.
    pub fn to_json(&self) -> (json: JsonValue)
        ensures
            json@ == characteristic_json(self@),
    {
        let mut members: Vec<(String, JsonValue)> = Vec::new();
        assert(object_view(members@) =~= Seq::empty());
        push_member(&mut members, "iid", JsonValue::unsigned(self.id));
        push_member(&mut members, "type", JsonValue::String(self.hap_type.to_string()));
        push_member(&mut members, "format", JsonValue::text(self.value.format().name()));
        push_member(&mut members, "perms", perms_to_json(&self.perms));
        assert(object_view(members@) =~= seq![
            ("iid"@, JsonView::Integer(self@.id as int)),
            ("type"@, JsonView::String(shortened_uuid(self@.hap_type))),
            ("format"@, JsonView::String(self@.format().spec_name())),
            ("perms"@, perms_json(self@.perms)),
        ]);
        push_optional(
            &mut members,
            "ev",
            match self.event_notifications {
                Some(on) => Some(JsonValue::Bool(on)),
                None => None,
            },
        );
        push_optional(
            &mut members,
            "value",
            if self.has_perm(Perm::PairedRead) {
                Some(self.value.to_json())
            } else {
                None
            },
        );
        push_optional(
            &mut members,
            "unit",
            match self.unit {
                Some(u) => Some(JsonValue::text(u.name())),
                None => None,
            },
        );
        push_optional(&mut members, "maxValue", value_option_to_json(&self.max_value));
        push_optional(&mut members, "minValue", value_option_to_json(&self.min_value));
        push_optional(&mut members, "minStep", value_option_to_json(&self.step_value));
        push_optional(
            &mut members,
            "maxLen",
            match self.max_len {
                Some(n) => Some(JsonValue::Integer(n as i128)),
                None => None,
            },
        );
        push_optional(
            &mut members,
            "maxDataLen",
            match self.max_data_len {
                Some(n) => Some(JsonValue::Integer(n as i128)),
                None => None,
            },
        );
        push_optional(
            &mut members,
            "valid-values",
            match &self.valid_values {
                Some(values) => Some(values_to_json(values)),
                None => None,
            },
        );
        JsonValue::object(members)
    }
}

} // verus!
