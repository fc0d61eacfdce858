//! From the HAP metadata to the model: names, formats, units and
//! permissions of the characteristics and services that the metadata
//! defines.

use vstd::prelude::*;
use vstd::string::*;
use crypto::digest::Digest;
use crate::accessory::{Accessory, AccessoryView, Information};
use crate::characteristic::value::{value_of_json, Format, Value, ValueView};
use crate::characteristic::{
    plain, value_option_view, values_option_view, values_view, Characteristic,
    CharacteristicView, Inner, Perm, Unit,
};
use crate::error::Error;
use crate::hap_type::HapType;
use crate::json::{JsonValue, JsonView};
use crate::service::{accessory_information, characteristics_view, Service, ServiceView};
use crate::text::{decimal_u64, parse_u64, same_text, strings_view};

verus! {

/// The SHA-256 hash of the bytes, as 64 hexadecimal digits.
pub uninterp spec fn sha256_hex_of(bytes: Seq<u8>) -> Seq<char>;

/// The text in lower case, as Unicode defines it.
pub uninterp spec fn lowercase_of(text: Seq<char>) -> Seq<char>;

/// The number of bytes from which on the hash refuses its input: it counts
/// the bits of its input in 64 bits.
pub const HASH_INPUT_LIMIT: u64 = 0x2000_0000_0000_0000;

/// Calls `Sha256` of rust-crypto: feeds the bytes to a new hasher with
/// `input` and takes the hash with `result_str`, in hexadecimal. The hash is
/// a function of the bytes alone; the contract gives it its name and claims
/// nothing else. The hasher panics on an input of 2^61 bytes or more, which
/// the contract leaves out.
#[verifier::external_body]
pub(crate) fn sha256_hex(bytes: &[u8]) -> (hash: String)
    requires
        bytes@.len() < HASH_INPUT_LIMIT,
    ensures
        hash@ == sha256_hex_of(bytes@),
{
    let mut hasher = crypto::sha2::Sha256::new();
    hasher.input(bytes);
    hasher.result_str()
}

/// Calls `str::to_lowercase` of std. The result is a function of the text
/// alone; the contract gives it its name and claims nothing else.
#[verifier::external_body]
pub(crate) fn lowercase(text: &str) -> (lower: String)
    ensures
        lower@ == lowercase_of(text@),
{
    text.to_lowercase()
}

/// The hash of the metadata, as it is kept beside the metadata.
pub fn metadata_hash(metadata: &[u8]) -> (hash: String)
    requires
        metadata@.len() < HASH_INPUT_LIMIT,
    ensures
        hash@ == sha256_hex_of(metadata@),
{
    sha256_hex(metadata)
}

/// Whether the model is to be made anew from the metadata: its hash differs
/// from the hash of the metadata that the model was last made from.
pub fn regeneration_needed(cached_hash: &str, metadata: &[u8]) -> (needed: bool)
    requires
        metadata@.len() < HASH_INPUT_LIMIT,
    ensures
        needed == (cached_hash@ != sha256_hex_of(metadata@)),
{
    let current_hash = metadata_hash(metadata);
    hash_differs(cached_hash, current_hash.as_str())
}

/// Whether the hash of the metadata differs from the hash that was kept.
pub fn hash_differs(cached_hash: &str, current_hash: &str) -> (differs: bool)
    ensures
        differs == (cached_hash@ != current_hash@),
{
    !same_text(cached_hash, current_hash)
}

/// The text with every space taken out and every dot turned into an
/// underscore: the name of a type.
pub open spec fn type_identifier_of(name: Seq<char>) -> Seq<char>
    decreases name.len(),
{
    if name.len() == 0 {
        Seq::empty()
    } else if name.last() == ' ' {
        type_identifier_of(name.drop_last())
    } else if name.last() == '.' {
        type_identifier_of(name.drop_last()).push('_')
    } else {
        type_identifier_of(name.drop_last()).push(name.last())
    }
}

/// The text with every space and every dot turned into an underscore.
pub open spec fn underscored(name: Seq<char>) -> Seq<char> {
    Seq::new(
        name.len(),
        |i: int|
            if name[i] == ' ' || name[i] == '.' {
                '_'
            } else {
                name[i]
            },
    )
}

/// The name of the type that stands for a characteristic or service of the
/// given name.
pub fn type_identifier(name: &str) -> (out: String)
    ensures
        out@ == type_identifier_of(name@),
{
    let n: usize = name.unicode_len();
    let mut out = String::new();
    let mut i: usize = 0;
    assert(name@.subrange(0, 0) =~= Seq::<char>::empty());
    while i < n
        invariant
            0 <= i <= n,
            n == name@.len(),
            out@ == type_identifier_of(name@.subrange(0, i as int)),
        decreases n - i,
    {
        let ghost longer = name@.subrange(0, i + 1);
        assert(longer.drop_last() =~= name@.subrange(0, i as int));
        assert(longer.last() == name@[i as int]);
        let c = name.get_char(i);
        if c == ' ' {
        } else if c == '.' {
            proof {
                reveal_strlit("_");
            }
            out = out.concat("_");
            assert(out@ =~= type_identifier_of(longer));
        } else {
            let ghost before = out@;
            out = out.concat(name.substring_char(i, i + 1));
            assert(name@.subrange(i as int, i + 1) =~= seq![c]);
            assert(out@ =~= before.push(c));
        }
        i += 1;
    }
    assert(name@.subrange(0, n as int) =~= name@);
    out
}

/// The name of the module that stands for a characteristic or service of
/// the given name: spaces and dots are underscores, and the text is in lower
/// case.
pub fn file_name(name: &str) -> (out: String)
    ensures
        out@ == lowercase_of(underscored(name@)),
{
    let n: usize = name.unicode_len();
    let mut out = String::new();
    let mut i: usize = 0;
    while i < n
        invariant
            0 <= i <= n,
            n == name@.len(),
            out@ == underscored(name@).subrange(0, i as int),
        decreases n - i,
    {
        let ghost before = out@;
        let c = name.get_char(i);
        if c == ' ' || c == '.' {
            proof {
                reveal_strlit("_");
            }
            out = out.concat("_");
            assert(out@ =~= underscored(name@).subrange(0, i + 1));
        } else {
            out = out.concat(name.substring_char(i, i + 1));
            assert(name@.subrange(i as int, i + 1) =~= seq![c]);
            assert(out@ =~= underscored(name@).subrange(0, i + 1));
        }
        i += 1;
    }
    assert(underscored(name@).subrange(0, n as int) =~= underscored(name@));
    lowercase(out.as_str())
}

/// The format that a name of the metadata stands for.
pub open spec fn format_of(name: Seq<char>) -> Option<Format> {
    if name == "bool"@ {
        Some(Format::Bool)
    } else if name == "uint8"@ {
        Some(Format::UInt8)
    } else if name == "uint16"@ {
        Some(Format::UInt16)
    } else if name == "uint32"@ {
        Some(Format::UInt32)
    } else if name == "uint64"@ {
        Some(Format::UInt64)
    } else if name == "int"@ || name == "int32"@ {
        Some(Format::Int32)
    } else if name == "float"@ {
        Some(Format::Float)
    } else if name == "string"@ {
        Some(Format::String)
    } else if name == "tlv8"@ {
        Some(Format::Tlv8)
    } else if name == "data"@ {
        Some(Format::Data)
    } else {
        None
    }
}

/// The format that a name of the metadata stands for.
pub fn parse_format(name: &str) -> (format: Option<Format>)
    ensures
        format == format_of(name@),
{
    if same_text(name, "bool") {
        Some(Format::Bool)
    } else if same_text(name, "uint8") {
        Some(Format::UInt8)
    } else if same_text(name, "uint16") {
        Some(Format::UInt16)
    } else if same_text(name, "uint32") {
        Some(Format::UInt32)
    } else if same_text(name, "uint64") {
        Some(Format::UInt64)
    } else if same_text(name, "int") || same_text(name, "int32") {
        Some(Format::Int32)
    } else if same_text(name, "float") {
        Some(Format::Float)
    } else if same_text(name, "string") {
        Some(Format::String)
    } else if same_text(name, "tlv8") {
        Some(Format::Tlv8)
    } else if same_text(name, "data") {
        Some(Format::Data)
    } else {
        None
    }
}

/// The unit that a name of the metadata stands for.
pub open spec fn unit_of(name: Seq<char>) -> Option<Unit> {
    if name == "percentage"@ {
        Some(Unit::Percentage)
    } else if name == "arcdegrees"@ {
        Some(Unit::ArcDegrees)
    } else if name == "celsius"@ {
        Some(Unit::Celsius)
    } else if name == "lux"@ {
        Some(Unit::Lux)
    } else if name == "seconds"@ {
        Some(Unit::Seconds)
    } else {
        None
    }
}

/// The unit that a name of the metadata stands for.
pub fn parse_unit(name: &str) -> (unit: Option<Unit>)
    ensures
        unit == unit_of(name@),
{
    if same_text(name, "percentage") {
        Some(Unit::Percentage)
    } else if same_text(name, "arcdegrees") {
        Some(Unit::ArcDegrees)
    } else if same_text(name, "celsius") {
        Some(Unit::Celsius)
    } else if same_text(name, "lux") {
        Some(Unit::Lux)
    } else if same_text(name, "seconds") {
        Some(Unit::Seconds)
    } else {
        None
    }
}

/// The permission that a property of the metadata stands for: `read`,
/// `write` and `cnotify` stand for the permissions to read, to write and to
/// be notified; other properties stand for none.
pub open spec fn perm_of(property: Seq<char>) -> Option<Perm> {
    if property == "read"@ {
        Some(Perm::PairedRead)
    } else if property == "write"@ {
        Some(Perm::PairedWrite)
    } else if property == "cnotify"@ {
        Some(Perm::Events)
    } else {
        None
    }
}

/// The permissions that the properties of the metadata stand for, in their
/// order.
pub open spec fn perms_of(properties: Seq<Seq<char>>) -> Seq<Perm>
    decreases properties.len(),
{
    if properties.len() == 0 {
        Seq::empty()
    } else {
        match perm_of(properties.last()) {
            Some(perm) => perms_of(properties.drop_last()).push(perm),
            None => perms_of(properties.drop_last()),
        }
    }
}

/// The permissions that the properties of the metadata stand for.
pub fn properties_to_perms(properties: &Vec<String>) -> (perms: Vec<Perm>)
    ensures
        perms@ == perms_of(crate::text::strings_view(properties@)),
{
    let ghost model = crate::text::strings_view(properties@);
    let mut perms: Vec<Perm> = Vec::new();
    let mut i: usize = 0;
    assert(model.subrange(0, 0) =~= Seq::empty());
    while i < properties.len()
        invariant
            0 <= i <= properties@.len(),
            model == crate::text::strings_view(properties@),
            perms@ == perms_of(model.subrange(0, i as int)),
        decreases properties@.len() - i,
    {
        let ghost longer = model.subrange(0, i + 1);
        assert(longer.drop_last() =~= model.subrange(0, i as int));
        assert(longer.last() == properties@[i as int]@);
        let property = properties[i].as_str();
        if same_text(property, "read") {
            perms.push(Perm::PairedRead);
        } else if same_text(property, "write") {
            perms.push(Perm::PairedWrite);
        } else if same_text(property, "cnotify") {
            perms.push(Perm::Events);
        }
        i += 1;
    }
    assert(model.subrange(0, properties@.len() as int) =~= model);
    perms
}

/// Whether an accessory is made for the service of the given name: one is
/// made for every service but those that only make sense as a part of an
/// accessory with other services.
pub open spec fn has_accessory(service_name: Seq<char>) -> bool {
    &&& service_name != "Accessory Information"@
    &&& service_name != "Battery Service"@
    &&& service_name != "Camera RTP Stream Management"@
    &&& service_name != "Doorbell"@
    &&& service_name != "Faucet"@
    &&& service_name != "Filter Maintenance"@
    &&& service_name != "Irrigation System"@
    &&& service_name != "Lock Management"@
    &&& service_name != "Lock Mechanism"@
    &&& service_name != "Microphone"@
    &&& service_name != "Service Label"@
    &&& service_name != "Slat"@
    &&& service_name != "Speaker"@
    &&& service_name != "Television"@
}

/// Whether an accessory is made for the service of the given name.
pub fn makes_accessory(service_name: &str) -> (makes: bool)
    ensures
        makes == has_accessory(service_name@),
{
    !same_text(service_name, "Accessory Information") && !same_text(service_name, "Battery Service")
        && !same_text(service_name, "Camera RTP Stream Management") && !same_text(
        service_name,
        "Doorbell",
    ) && !same_text(service_name, "Faucet") && !same_text(service_name, "Filter Maintenance")
        && !same_text(service_name, "Irrigation System") && !same_text(
        service_name,
        "Lock Management",
    ) && !same_text(service_name, "Lock Mechanism") && !same_text(service_name, "Microphone")
        && !same_text(service_name, "Service Label") && !same_text(service_name, "Slat")
        && !same_text(service_name, "Speaker") && !same_text(service_name, "Television")
}

/// A category of accessories: its name and its number.
#[derive(Debug)]
pub struct Category {
    pub name: String,
    pub number: u8,
}

/// The constraints that the metadata sets on the value of a characteristic.
/// The valid values are given by their numbers, in decimal notation, each
/// with its meaning.
#[derive(Debug)]
pub struct Constraints {
    pub valid_values: Option<Vec<(String, String)>>,
    pub max_value: Option<JsonValue>,
    pub min_value: Option<JsonValue>,
    pub step_value: Option<JsonValue>,
    pub max_len: Option<u16>,
}

/// What the metadata says of a characteristic.
#[derive(Debug)]
pub struct CharacteristicMetadata {
    pub id: String,
    pub name: String,
    pub format: String,
    pub unit: Option<String>,
    pub constraints: Option<Constraints>,
    pub permissions: Option<Vec<String>>,
    pub properties: Option<Vec<String>>,
}

/// What the metadata says of a service: its characteristics are named by
/// their UUIDs.
#[derive(Debug)]
pub struct ServiceMetadata {
    pub id: String,
    pub name: String,
    pub required_characteristics: Vec<String>,
    pub optional_characteristics: Vec<String>,
}

/// The HAP metadata: the categories, characteristics and services.
#[derive(Debug)]
pub struct Metadata {
    pub categories: Vec<Category>,
    pub characteristics: Vec<CharacteristicMetadata>,
    pub services: Vec<ServiceMetadata>,
}

/// The number of the first category of the given name among the first `k`.
pub open spec fn category_number_of(categories: Seq<Category>, name: Seq<char>) -> Option<u8>
    decreases categories.len(),
{
    if categories.len() == 0 {
        None
    } else if categories[0].name@ == name {
        Some(categories[0].number)
    } else {
        category_number_of(categories.drop_first(), name)
    }
}

/// The number of the category of the given name.
pub fn category_number(metadata: &Metadata, name: &str) -> (number: Option<u8>)
    ensures
        number == category_number_of(metadata.categories@, name@),
{
    let ghost all = metadata.categories@;
    let mut i: usize = 0;
    assert(all.subrange(0, all.len() as int) =~= all);
    while i < metadata.categories.len()
        invariant
            0 <= i <= all.len(),
            all == metadata.categories@,
            category_number_of(all, name@) == category_number_of(
                all.subrange(i as int, all.len() as int),
                name@,
            ),
        decreases all.len() - i,
    {
        let ghost rest = all.subrange(i as int, all.len() as int);
        assert(rest[0] == all[i as int]);
        assert(rest.drop_first() =~= all.subrange(i + 1, all.len() as int));
        if same_text(metadata.categories[i].name.as_str(), name) {
            return Some(metadata.categories[i].number);
        }
        i += 1;
    }
    None
}

/// The model of an optional JSON value.
pub open spec fn json_option_view(json: Option<JsonValue>) -> Option<JsonView> {
    match json {
        Some(j) => Some(j@),
        None => None,
    }
}

/// The value that a constraint of the metadata sets, for a characteristic
/// of the given format: none where the metadata sets none, and an error
/// where what it sets is no value of the format.
pub open spec fn constraint_of(format: Format, json: Option<JsonView>) -> Result<
    Option<ValueView>,
    (),
> {
    match json {
        None => Ok(None),
        Some(j) => match value_of_json(format, j) {
            Some(v) => Ok(Some(v)),
            None => Err(()),
        },
    }
}

/// The value that a constraint of the metadata sets.
fn read_constraint(format: Format, json: &Option<JsonValue>) -> (value: Result<Option<Value>, ()>)
    ensures
        match value {
            Ok(v) => constraint_of(format, json_option_view(*json)) == Ok::<_, ()>(
                value_option_view(v),
            ),
            Err(_) => constraint_of(format, json_option_view(*json)) is Err,
        },
{
    match json {
        None => Ok(None),
        Some(j) => match Value::from_json(format, j) {
            Some(v) => Ok(Some(v)),
            None => Err(()),
        },
    }
}

/// The value of the given format that a number in decimal notation denotes.
pub open spec fn valid_value_of(format: Format, number: Seq<char>) -> Option<ValueView> {
    match decimal_u64(number) {
        Some(n) => value_of_json(format, JsonView::Integer(n as int)),
        None => None,
    }
}

/// The valid values that the metadata lists, for a characteristic of the
/// given format, in their order; an error where one of them is no value of
/// the format.
pub open spec fn valid_values_of(format: Format, listed: Seq<(String, String)>) -> Result<
    Seq<ValueView>,
    (),
>
    decreases listed.len(),
{
    if listed.len() == 0 {
        Ok(Seq::empty())
    } else {
        match (
            valid_values_of(format, listed.drop_last()),
            valid_value_of(format, listed.last().0@),
        ) {
            (Ok(values), Some(v)) => Ok(values.push(v)),
            _ => Err(()),
        }
    }
}

/// The valid values that the metadata lists.
fn read_valid_values(format: Format, listed: &Vec<(String, String)>) -> (values: Result<
    Vec<Value>,
    (),
>)
    ensures
        match values {
            Ok(v) => valid_values_of(format, listed@) == Ok::<_, ()>(values_view(v@)),
            Err(_) => valid_values_of(format, listed@) is Err,
        },
{
    let mut values: Vec<Value> = Vec::new();
    let mut i: usize = 0;
    assert(listed@.subrange(0, 0) =~= Seq::empty());
    assert(values_view(values@) =~= Seq::empty());
    while i < listed.len()
        invariant
            0 <= i <= listed@.len(),
            valid_values_of(format, listed@.subrange(0, i as int)) == Ok::<_, ()>(
                values_view(values@),
            ),
        decreases listed@.len() - i,
    {
        let ghost longer = listed@.subrange(0, i + 1);
        let ghost before = values_view(values@);
        assert(longer.drop_last() =~= listed@.subrange(0, i as int));
        assert(longer.last() == listed@[i as int]);
        let number = match parse_u64(listed[i].0.as_str()) {
            Some(n) => n,
            None => {
                proof {
                    lemma_valid_values_fail(format, listed@, i + 1);
                }
                return Err(());
            },
        };
        match Value::from_json(format, &JsonValue::unsigned(number)) {
            Some(v) => {
                assert(values_view(values@.push(v)) =~= before.push(v@));
                values.push(v);
            },
            None => {
                proof {
                    lemma_valid_values_fail(format, listed@, i + 1);
                }
                return Err(());
            },
        }
        i += 1;
    }
    assert(listed@.subrange(0, listed@.len() as int) =~= listed@);
    Ok(values)
}

/// Once the valid values up to some point fail, the whole list fails.
pub proof fn lemma_valid_values_fail(format: Format, listed: Seq<(String, String)>, k: int)
    requires
        0 <= k <= listed.len(),
        valid_values_of(format, listed.subrange(0, k)) is Err,
    ensures
        valid_values_of(format, listed) is Err,
    decreases listed.len() - k,
{
    if k == listed.len() {
        assert(listed.subrange(0, k) =~= listed);
    } else {
        let longer = listed.subrange(0, k + 1);
        assert(longer.drop_last() =~= listed.subrange(0, k));
        lemma_valid_values_fail(format, listed, k + 1);
    }
}

/// The properties of a characteristic of the metadata.
pub open spec fn properties_of(c: CharacteristicMetadata) -> Seq<Seq<char>> {
    match c.properties {
        Some(p) => strings_view(p@),
        None => Seq::empty(),
    }
}

/// The unit of a characteristic of the metadata: none where it has none,
/// and an error where it has one of an unknown name.
pub open spec fn unit_constraint_of(unit: Option<String>) -> Result<Option<Unit>, ()> {
    match unit {
        None => Ok(None),
        Some(name) => match unit_of(name@) {
            Some(u) => Ok(Some(u)),
            None => Err(()),
        },
    }
}

/// The valid values of a characteristic of the metadata.
pub open spec fn valid_constraint_of(format: Format, listed: Option<Vec<(String, String)>>) -> Result<
    Option<Seq<ValueView>>,
    (),
> {
    match listed {
        None => Ok(None),
        Some(l) => match valid_values_of(format, l@) {
            Ok(values) => Ok(Some(values)),
            Err(_) => Err(()),
        },
    }
}

/// The characteristic that the metadata defines: of the type, format and
/// permissions that it names, with the unit and the constraints that it
/// sets, carried over as they are. A format or a unit of an unknown name is
/// a protocol error, and so is a constraint that is no value of the format.
pub open spec fn characteristic_of(c: CharacteristicMetadata) -> Result<CharacteristicView, Error> {
    match format_of(c.format@) {
        None => Err(Error::Protocol),
        Some(format) => {
            let base = plain(c.id@, format, perms_of(properties_of(c)));
            match unit_constraint_of(c.unit) {
                Err(_) => Err(Error::Protocol),
                Ok(unit) => match c.constraints {
                    None => Ok(CharacteristicView { unit, ..base }),
                    Some(k) => match (
                        constraint_of(format, json_option_view(k.max_value)),
                        constraint_of(format, json_option_view(k.min_value)),
                        constraint_of(format, json_option_view(k.step_value)),
                        valid_constraint_of(format, k.valid_values),
                    ) {
                        (Ok(max_value), Ok(min_value), Ok(step_value), Ok(valid_values)) => Ok(
                            CharacteristicView {
                                unit,
                                max_value,
                                min_value,
                                step_value,
                                max_len: k.max_len,
                                valid_values,
                                ..base
                            },
                        ),
                        _ => Err(Error::Protocol),
                    },
                },
            }
        },
    }
}

/// The unit of a characteristic of the metadata.
fn read_unit(unit: &Option<String>) -> (result: Result<Option<Unit>, ()>)
    ensures
        result == unit_constraint_of(*unit),
{
    match unit {
        None => Ok(None),
        Some(name) => match parse_unit(name.as_str()) {
            Some(u) => Ok(Some(u)),
            None => Err(()),
        },
    }
}

/// The valid values of a characteristic of the metadata.
fn read_valid_constraint(format: Format, listed: &Option<Vec<(String, String)>>) -> (result: Result<
    Option<Vec<Value>>,
    (),
>)
    ensures
        match result {
            Ok(v) => valid_constraint_of(format, *listed) == Ok::<_, ()>(values_option_view(v)),
            Err(_) => valid_constraint_of(format, *listed) is Err,
        },
{
    match listed {
        None => Ok(None),
        Some(l) => match read_valid_values(format, l) {
            Ok(values) => Ok(Some(values)),
            Err(_) => Err(()),
        },
    }
}

/// Sets the constraints of the metadata on the definition of a
/// characteristic.
fn read_constraints(inner: &mut Inner, k: &Constraints) -> (result: Result<(), ()>)
    requires
        old(inner).max_value is None,
        old(inner).min_value is None,
        old(inner).step_value is None,
        old(inner).max_len is None,
        old(inner).valid_values is None,
    ensures
        final(inner).hap_type == old(inner).hap_type,
        final(inner).format == old(inner).format,
        final(inner).perms == old(inner).perms,
        final(inner).unit == old(inner).unit,
        final(inner).max_data_len == old(inner).max_data_len,
        match (
            constraint_of(old(inner).format, json_option_view(k.max_value)),
            constraint_of(old(inner).format, json_option_view(k.min_value)),
            constraint_of(old(inner).format, json_option_view(k.step_value)),
            valid_constraint_of(old(inner).format, k.valid_values),
        ) {
            (Ok(max_value), Ok(min_value), Ok(step_value), Ok(valid_values)) => {
                &&& result is Ok
                &&& value_option_view(final(inner).max_value) == max_value
                &&& value_option_view(final(inner).min_value) == min_value
                &&& value_option_view(final(inner).step_value) == step_value
                &&& values_option_view(final(inner).valid_values) == valid_values
                &&& final(inner).max_len == k.max_len
            },
            _ => result is Err,
        },
{
    let format = inner.format;
    let max_value = read_constraint(format, &k.max_value);
    let min_value = read_constraint(format, &k.min_value);
    let step_value = read_constraint(format, &k.step_value);
    let valid_values = read_valid_constraint(format, &k.valid_values);
    match (max_value, min_value, step_value, valid_values) {
        (Ok(max_value), Ok(min_value), Ok(step_value), Ok(valid_values)) => {
            inner.max_value = max_value;
            inner.min_value = min_value;
            inner.step_value = step_value;
            inner.valid_values = valid_values;
            inner.max_len = k.max_len;
            Ok(())
        },
        _ => Err(()),
    }
}

/// Creates the characteristic that the metadata defines.
pub fn new_characteristic(c: &CharacteristicMetadata) -> (result: Result<Characteristic, Error>)
    ensures
        match result {
            Ok(characteristic) => characteristic_of(*c) == Ok::<_, Error>(characteristic@),
            Err(e) => characteristic_of(*c) == Err::<CharacteristicView, _>(e),
        },
{
    let format = match parse_format(c.format.as_str()) {
        Some(format) => format,
        None => {
            return Err(Error::Protocol);
        },
    };
    let perms = match &c.properties {
        Some(properties) => properties_to_perms(properties),
        None => Vec::new(),
    };
    let unit = match read_unit(&c.unit) {
        Ok(unit) => unit,
        Err(_) => {
            return Err(Error::Protocol);
        },
    };
    let mut inner = Inner::new(HapType::new(c.id.as_str()), format, perms);
    inner.unit = unit;
    if let Some(k) = &c.constraints {
        if read_constraints(&mut inner, k).is_err() {
            return Err(Error::Protocol);
        }
    }
    Ok(Characteristic::new(inner))
}

/// The place of the first characteristic of the metadata with the given
/// UUID, or the number of characteristics where there is none.
pub open spec fn place_of(characteristics: Seq<CharacteristicMetadata>, uuid: Seq<char>) -> int
    decreases characteristics.len(),
{
    if characteristics.len() == 0 {
        0
    } else if characteristics[0].id@ == uuid {
        0
    } else {
        1 + place_of(characteristics.drop_first(), uuid)
    }
}

/// The place is within the list or at its end.
pub proof fn lemma_place_of(characteristics: Seq<CharacteristicMetadata>, uuid: Seq<char>)
    ensures
        0 <= place_of(characteristics, uuid) <= characteristics.len(),
    decreases characteristics.len(),
{
    if characteristics.len() > 0 && characteristics[0].id@ != uuid {
        lemma_place_of(characteristics.drop_first(), uuid);
    }
}

/// The place of the first characteristic of the metadata with the given
/// UUID.
pub fn find_characteristic(metadata: &Metadata, uuid: &str) -> (place: usize)
    ensures
        place == place_of(metadata.characteristics@, uuid@),
        place <= metadata.characteristics@.len(),
{
    let ghost all = metadata.characteristics@;
    let mut i: usize = 0;
    assert(all.subrange(0, all.len() as int) =~= all);
    while i < metadata.characteristics.len()
        invariant
            0 <= i <= all.len(),
            all == metadata.characteristics@,
            place_of(all, uuid@) == i + place_of(all.subrange(i as int, all.len() as int), uuid@),
        decreases all.len() - i,
    {
        let ghost rest = all.subrange(i as int, all.len() as int);
        assert(rest[0] == all[i as int]);
        assert(rest.drop_first() =~= all.subrange(i + 1, all.len() as int));
        if same_text(metadata.characteristics[i].id.as_str(), uuid) {
            return i;
        }
        i += 1;
    }
    i
}

/// The characteristics that the given UUIDs name, in their order, each as
/// the metadata defines it. A UUID that the metadata does not know stands
/// for no characteristic.
pub open spec fn characteristics_of(all: Seq<CharacteristicMetadata>, uuids: Seq<String>) -> Result<
    Seq<CharacteristicView>,
    Error,
>
    decreases uuids.len(),
{
    if uuids.len() == 0 {
        Ok(Seq::empty())
    } else {
        match characteristics_of(all, uuids.drop_last()) {
            Err(e) => Err(e),
            Ok(characteristics) => {
                let place = place_of(all, uuids.last()@);
                if place >= all.len() {
                    Ok(characteristics)
                } else {
                    match characteristic_of(all[place]) {
                        Ok(c) => Ok(characteristics.push(c)),
                        Err(e) => Err(e),
                    }
                }
            },
        }
    }
}

/// Once the characteristics up to some point fail, the whole list fails
/// with the same error.
pub proof fn lemma_characteristics_fail(
    all: Seq<CharacteristicMetadata>,
    uuids: Seq<String>,
    k: int,
)
    requires
        0 <= k <= uuids.len(),
        characteristics_of(all, uuids.subrange(0, k)) is Err,
    ensures
        characteristics_of(all, uuids) == characteristics_of(all, uuids.subrange(0, k)),
    decreases uuids.len() - k,
{
    if k == uuids.len() {
        assert(uuids.subrange(0, k) =~= uuids);
    } else {
        let longer = uuids.subrange(0, k + 1);
        assert(longer.drop_last() =~= uuids.subrange(0, k));
        lemma_characteristics_fail(all, uuids, k + 1);
    }
}

/// The service that the metadata defines: of the type that it names, with
/// its required characteristics. The optional ones are absent.
pub open spec fn service_of(metadata: Metadata, s: ServiceMetadata) -> Result<ServiceView, Error> {
    match characteristics_of(metadata.characteristics@, s.required_characteristics@) {
        Ok(characteristics) => Ok(
            ServiceView { id: 0, hap_type: s.id@, hidden: false, primary: false, characteristics },
        ),
        Err(e) => Err(e),
    }
}

/// Creates the characteristics that the UUIDs name.
fn new_characteristics(metadata: &Metadata, uuids: &Vec<String>) -> (result: Result<
    Vec<Characteristic>,
    Error,
>)
    ensures
        match result {
            Ok(characteristics) => characteristics_of(metadata.characteristics@, uuids@) == Ok::<
                _,
                Error,
            >(characteristics_view(characteristics@)),
            Err(e) => characteristics_of(metadata.characteristics@, uuids@) == Err::<
                Seq<CharacteristicView>,
                _,
            >(e),
        },
{
    let ghost all = metadata.characteristics@;
    let mut characteristics: Vec<Characteristic> = Vec::new();
    let mut i: usize = 0;
    assert(uuids@.subrange(0, 0) =~= Seq::empty());
    assert(characteristics_view(characteristics@) =~= Seq::empty());
    while i < uuids.len()
        invariant
            0 <= i <= uuids@.len(),
            all == metadata.characteristics@,
            characteristics_of(all, uuids@.subrange(0, i as int)) == Ok::<_, Error>(
                characteristics_view(characteristics@),
            ),
        decreases uuids@.len() - i,
    {
        let ghost longer = uuids@.subrange(0, i + 1);
        let ghost before = characteristics_view(characteristics@);
        assert(longer.drop_last() =~= uuids@.subrange(0, i as int));
        assert(longer.last() == uuids@[i as int]);
        let place = find_characteristic(metadata, uuids[i].as_str());
        if place < metadata.characteristics.len() {
            match new_characteristic(&metadata.characteristics[place]) {
                Ok(c) => {
                    assert(characteristics_view(characteristics@.push(c)) =~= before.push(c@));
                    characteristics.push(c);
                },
                Err(e) => {
                    proof {
                        lemma_characteristics_fail(all, uuids@, i + 1);
                    }
                    return Err(e);
                },
            }
        }
        i += 1;
    }
    assert(uuids@.subrange(0, uuids@.len() as int) =~= uuids@);
    Ok(characteristics)
}

/// Creates the service that the metadata defines.
pub fn new_service(metadata: &Metadata, s: &ServiceMetadata) -> (result: Result<Service, Error>)
    ensures
        match result {
            Ok(service) => service_of(*metadata, *s) == Ok::<_, Error>(service@),
            Err(e) => service_of(*metadata, *s) == Err::<ServiceView, _>(e),
        },
{
    let characteristics = new_characteristics(metadata, &s.required_characteristics)?;
    Ok(Service::new(HapType::new(s.id.as_str()), characteristics))
}

/// Creates the accessory that is made for a service of the metadata: the
/// Accessory Information service that carries the information, and the
/// service as the primary service. There is none for the services without
/// an accessory of their own.
pub fn new_accessory(metadata: &Metadata, s: &ServiceMetadata, information: Information) -> (result:
    Result<Option<Accessory>, Error>)
    ensures
        if !has_accessory(s.name@) {
            result == Ok::<Option<Accessory>, Error>(None)
        } else {
            match service_of(*metadata, *s) {
                Err(e) => result == Err::<Option<Accessory>, _>(e),
                Ok(service) => {
                    &&& result is Ok
                    &&& result->Ok_0 is Some
                    &&& result->Ok_0->0@ == (AccessoryView {
                        id: 0,
                        services: seq![
                            ServiceView {
                                id: 0,
                                hap_type: accessory_information::UUID@,
                                hidden: false,
                                primary: false,
                                characteristics: information.characteristics(),
                            },
                            ServiceView { primary: true, ..service },
                        ],
                    })
                },
            }
        },
{
    if !makes_accessory(s.name.as_str()) {
        return Ok(None);
    }
    let mut service = new_service(metadata, s)?;
    service.set_primary(true);
    let ghost primary = service@;
    let information = information.to_service()?;
    let ghost first = information@;
    let mut services: Vec<Service> = Vec::new();
    services.push(service);
    let accessory = Accessory::new(information, services);
    assert(accessory@.services =~= seq![first, primary]);
    Ok(Some(accessory))
}

} // verus!
