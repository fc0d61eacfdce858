//! Accessories: ordered lists of services, numbered when they are published.

pub mod generated;

use vstd::prelude::*;
use crate::characteristic::generated::{
    firmware_revision, identify, manufacturer, model, name, serial_number,
};
use crate::characteristic::value::{Format, Value, ValueView};
use crate::characteristic::{plain, Characteristic, CharacteristicView, Perm};
use crate::error::Error;
use crate::json::{array_view, object_view, push_member, JsonValue, JsonView};
use crate::service::accessory_information::{self, AccessoryInformation};
use crate::service::{service_json, Service, ServiceView};

verus! {

/// What identifies an accessory to its user.
#[derive(Debug)]
pub struct Information {
    pub name: String,
    pub manufacturer: String,
    pub model: String,
    pub serial_number: String,
    pub firmware_revision: String,
}

impl Default for Information {
    /// Every field reads `undefined`.
    fn default() -> (information: Information)
        ensures
            information.name@ == "undefined"@,
            information.manufacturer@ == "undefined"@,
            information.model@ == "undefined"@,
            information.serial_number@ == "undefined"@,
            information.firmware_revision@ == "undefined"@,
    {
        Information {
            name: "undefined".to_owned(),
            manufacturer: "undefined".to_owned(),
            model: "undefined".to_owned(),
            serial_number: "undefined".to_owned(),
            firmware_revision: "undefined".to_owned(),
        }
    }
}

/// A readable string characteristic of the given type that holds the text.
pub open spec fn text_characteristic(hap_type: Seq<char>, text: Seq<char>) -> CharacteristicView {
    plain(hap_type, Format::String, seq![Perm::PairedRead]).with_value(ValueView::String(text))
}

impl Information {
    /// The characteristics of the Accessory Information service that carries
    /// this information.
    pub open spec fn characteristics(self) -> Seq<CharacteristicView> {
        seq![
            plain(identify::UUID@, Format::Bool, seq![Perm::PairedWrite]),
            text_characteristic(manufacturer::UUID@, self.manufacturer@),
            text_characteristic(model::UUID@, self.model@),
            text_characteristic(name::UUID@, self.name@),
            text_characteristic(serial_number::UUID@, self.serial_number@),
            text_characteristic(firmware_revision::UUID@, self.firmware_revision@),
        ]
    }

    /// The Accessory Information service that carries this information. No
    /// text is refused: the five characteristics have no maximum length.
    pub fn to_service(self) -> (result: Result<AccessoryInformation, Error>)
        ensures
            result is Ok,
            result->Ok_0@ == (ServiceView {
                id: 0,
                hap_type: accessory_information::UUID@,
                hidden: false,
                primary: false,
                characteristics: self.characteristics(),
            }),
    {
        let mut manufacturer = manufacturer::new();
        manufacturer.set_value(Value::String(self.manufacturer))?;
        let mut model = model::new();
        model.set_value(Value::String(self.model))?;
        let mut name = name::new();
        name.set_value(Value::String(self.name))?;
        let mut serial_number = serial_number::new();
        serial_number.set_value(Value::String(self.serial_number))?;
        let mut firmware_revision = firmware_revision::new();
        firmware_revision.set_value(Value::String(self.firmware_revision))?;
        Ok(
            AccessoryInformation::from_characteristics(
                identify::new(),
                manufacturer,
                model,
                name,
                serial_number,
                firmware_revision,
            ),
        )
    }
}

/// The models of a list of services.
pub open spec fn services_view(services: Seq<Service>) -> Seq<ServiceView> {
    Seq::new(services.len(), |i: int| services[i]@)
}

/// The number of instance ids that the first `k` services take.
pub open spec fn instances_before(services: Seq<ServiceView>, k: int) -> int
    decreases k,
{
    if k <= 0 {
        0
    } else {
        instances_before(services, k - 1) + services[k - 1].instances()
    }
}

/// The number of instance ids that the services take.
pub open spec fn instance_count(services: Seq<ServiceView>) -> int {
    instances_before(services, services.len() as int)
}

/// Whether the instance ids are dense, start at 1 and follow the walk
/// through the services: each service has the id after the last one of the
/// service before it, its characteristics the ids that follow, in their
/// order; and every characteristic has the accessory id.
pub open spec fn numbered(services: Seq<ServiceView>, accessory_id: u64) -> bool {
    forall|k: int|
        0 <= k < services.len() ==> (#[trigger] services[k]).numbered_from(
            1 + instances_before(services, k),
            accessory_id,
        )
}

/// Whether the services differ at most in the ids that numbering sets.
pub open spec fn same_but_ids(services: Seq<ServiceView>, others: Seq<ServiceView>) -> bool {
    &&& services.len() == others.len()
    &&& forall|k: int| 0 <= k < services.len() ==> (#[trigger] services[k]).same_but_ids(others[k])
}

/// The count of instances grows with the number of services counted.
pub proof fn lemma_instances_before_monotone(services: Seq<ServiceView>, i: int, j: int)
    requires
        0 <= i <= j,
    ensures
        0 <= instances_before(services, i) <= instances_before(services, j),
        i < j ==> instances_before(services, i) < instances_before(services, j),
    decreases j,
{
    if i < j {
        lemma_instances_before_monotone(services, i, j - 1);
    } else if i > 0 {
        lemma_instances_before_monotone(services, i - 1, j - 1);
    }
}

/// Services with as many characteristics each take as many instance ids.
pub proof fn lemma_instances_before_same_lengths(
    services: Seq<ServiceView>,
    others: Seq<ServiceView>,
    k: int,
)
    requires
        0 <= k <= services.len(),
        k <= others.len(),
        forall|j: int|
            0 <= j < k ==> (#[trigger] services[j]).characteristics.len()
                == others[j].characteristics.len(),
    ensures
        instances_before(services, k) == instances_before(others, k),
    decreases k,
{
    if k > 0 {
        lemma_instances_before_same_lengths(services, others, k - 1);
        assert(services[k - 1].characteristics.len() == others[k - 1].characteristics.len());
    }
}

/// Numbers the services of an accessory: instance ids from 1, each service
/// before its characteristics, in one walk through the list.
pub fn init_iids(services: &mut Vec<Service>, accessory_id: u64)
    requires
        instance_count(services_view(old(services)@)) < u64::MAX,
    ensures
        numbered(services_view(final(services)@), accessory_id),
        same_but_ids(services_view(final(services)@), services_view(old(services)@)),
{
    let ghost before = services_view(services@);
    let mut next_iid: u64 = 1;
    let mut i: usize = 0;
    while i < services.len()
        invariant
            0 <= i <= services@.len(),
            services@.len() == before.len(),
            before == services_view(old(services)@),
            instance_count(before) < u64::MAX,
            next_iid == 1 + instances_before(before, i as int),
            forall|j: int|
                0 <= j < i ==> {
                    &&& (#[trigger] services@[j])@.numbered_from(
                        1 + instances_before(before, j),
                        accessory_id,
                    )
                    &&& services@[j]@.same_but_ids(before[j])
                },
            forall|j: int| i <= j < services@.len() ==> (#[trigger] services@[j])@ == before[j],
        decreases services@.len() - i,
    {
        proof {
            lemma_instances_before_monotone(before, i as int + 1, before.len() as int);
            assert(services@[i as int]@ == before[i as int]);
        }
        let service = &mut services[i];
        next_iid = service.init_iids(next_iid, accessory_id);
        i += 1;
    }
    proof {
        let after = services_view(services@);
        assert forall|k: int| 0 <= k < after.len() implies (#[trigger] after[k]).same_but_ids(
            before[k],
        ) by {
            assert(after[k] == services@[k]@);
        }
        assert forall|k: int| 0 <= k < after.len() implies (#[trigger] after[k]).numbered_from(
            1 + instances_before(after, k),
            accessory_id,
        ) by {
            assert(after[k] == services@[k]@);
            lemma_instances_before_same_lengths(after, before, k);
        }
    }
}

/// An accessory as it is published: its accessory id and its services, the
/// Accessory Information service first.
#[derive(Debug)]
pub struct Accessory {
    id: u64,
    services: Vec<Service>,
}

/// The mathematical model of an accessory.
pub struct AccessoryView {
    pub id: u64,
    pub services: Seq<ServiceView>,
}

impl AccessoryView {
    /// Whether the accessory starts with its one Accessory Information
    /// service and has at most one primary service.
    pub open spec fn well_formed(self) -> bool {
        &&& self.services.len() >= 1
        &&& forall|k: int|
            0 <= k < self.services.len() ==> ((#[trigger] self.services[k]).hap_type
                == accessory_information::UUID@ <==> k == 0)
        &&& forall|j: int, k: int|
            0 <= j < self.services.len() && 0 <= k < self.services.len()
                && (#[trigger] self.services[j]).primary && (#[trigger] self.services[k]).primary
                ==> j == k
    }

    /// Whether the accessory has been given its ids: an accessory id of at
    /// least 1, and dense instance ids from 1 in the order of the walk
    /// through its services.
    pub open spec fn published(self) -> bool {
        &&& self.id >= 1
        &&& numbered(self.services, self.id)
    }
}

impl AccessoryView {
    /// Whether the place names a characteristic of the accessory: the
    /// service `s` and, in it, the characteristic `c`.
    pub open spec fn has_place(self, s: int, c: int) -> bool {
        0 <= s < self.services.len() && 0 <= c < self.services[s].characteristics.len()
    }

    /// The characteristic in the given place.
    pub open spec fn at(self, s: int, c: int) -> CharacteristicView {
        self.services[s].characteristics[c]
    }

    /// The accessory with another characteristic in the given place.
    pub open spec fn with_characteristic(
        self,
        s: int,
        c: int,
        characteristic: CharacteristicView,
    ) -> AccessoryView {
        AccessoryView {
            services: self.services.update(
                s,
                self.services[s].with_characteristic(c, characteristic),
            ),
            ..self
        }
    }
}

impl View for Accessory {
    type V = AccessoryView;

    closed spec fn view(&self) -> AccessoryView {
        AccessoryView { id: self.id, services: services_view(self.services@) }
    }
}

impl Accessory {
    /// An accessory of the given services, which follow its Accessory
    /// Information service. It has no accessory id yet (the id is zero).
    pub fn new(information: AccessoryInformation, services: Vec<Service>) -> (accessory: Accessory)
        ensures
            accessory@ == (AccessoryView {
                id: 0,
                services: seq![information@] + services_view(services@),
            }),
    {
        let mut services = services;
        let mut all: Vec<Service> = Vec::new();
        all.push(information.into_service());
        let ghost rest = services@;
        all.append(&mut services);
        assert(services_view(all@) =~= seq![information@] + services_view(rest));
        Accessory { id: 0, services: all }
    }

    /// The accessory id.
    pub fn get_id(&self) -> (id: u64)
        ensures
            id == self@.id,
    {
        self.id
    }

    /// Sets the accessory id.
    pub fn set_id(&mut self, id: u64)
        ensures
            final(self)@ == (AccessoryView { id, ..old(self)@ }),
    {
        self.id = id;
    }

    /// The services, the Accessory Information service first.
    pub fn get_services(&self) -> (services: &Vec<Service>)
        ensures
            services_view(services@) == self@.services,
    {
        &self.services
    }

    /// The services, for change.
    pub fn get_mut_services(&mut self) -> (services: &mut Vec<Service>)
        ensures
            services_view(services@) == old(self)@.services,
            final(self)@ == (AccessoryView {
                services: services_view(final(services)@),
                ..old(self)@
            }),
    {
        &mut self.services
    }

    /// The place of the characteristic with the given instance id: its
    /// service and its place in the service.
    pub fn find_characteristic(&self, iid: u64) -> (place: Option<(usize, usize)>)
        ensures
            match place {
                Some((s, c)) => self@.has_place(s as int, c as int) && self@.at(
                    s as int,
                    c as int,
                ).id == iid,
                None => forall|s: int, c: int|
                    self@.has_place(s, c) ==> (#[trigger] self@.at(s, c)).id != iid,
            },
    {
        let mut s: usize = 0;
        while s < self.services.len()
            invariant
                0 <= s <= self.services@.len(),
                forall|j: int, c: int|
                    0 <= j < s && self@.has_place(j, c) ==> (#[trigger] self@.at(j, c)).id != iid,
            decreases self.services@.len() - s,
        {
            assert(self@.services[s as int] == self.services@[s as int]@);
            if let Some(c) = self.services[s].find_characteristic(iid) {
                return Some((s, c));
            }
            s += 1;
        }
        None
    }

    /// The characteristic in the given place.
    pub fn get_characteristic(&self, s: usize, c: usize) -> (characteristic: &Characteristic)
        requires
            self@.has_place(s as int, c as int),
        ensures
            characteristic@ == self@.at(s as int, c as int),
    {
        assert(self@.services[s as int] == self.services@[s as int]@);
        self.services[s].get_characteristic(c)
    }

    /// The characteristic in the given place, for change.
    pub fn get_mut_characteristic(&mut self, s: usize, c: usize) -> (characteristic:
        &mut Characteristic)
        requires
            old(self)@.has_place(s as int, c as int),
        ensures
            characteristic@ == old(self)@.at(s as int, c as int),
            final(self)@ == old(self)@.with_characteristic(
                s as int,
                c as int,
                final(characteristic)@,
            ),
    {
        assert(self@.services[s as int] == self.services@[s as int]@);
        let service = &mut self.services[s];
        proof {
            assert(services_view(old(self).services@.update(s as int, *final(service)))
                =~= services_view(old(self).services@).update(s as int, final(service)@));
        }
        service.get_mut_characteristic(c)
    }

    /// Numbers the services and characteristics: instance ids from 1, each
    /// service before its characteristics, and the accessory id on every
    /// characteristic. Nothing else changes.
    pub fn init_iids(&mut self, accessory_id: u64)
        requires
            instance_count(old(self)@.services) < u64::MAX,
        ensures
            final(self)@.id == old(self)@.id,
            numbered(final(self)@.services, accessory_id),
            same_but_ids(final(self)@.services, old(self)@.services),
    {
        init_iids(&mut self.services, accessory_id);
    }
}

/// The instance ids of a service in the order of the walk: its own, then
/// those of its characteristics.
pub open spec fn service_walk(service: ServiceView) -> Seq<int> {
    seq![service.id as int] + Seq::new(
        service.characteristics.len(),
        |i: int| service.characteristics[i].id as int,
    )
}

/// The instance ids of an accessory in the order of the walk through its
/// services.
pub open spec fn walk(services: Seq<ServiceView>) -> Seq<int>
    decreases services.len(),
{
    if services.len() == 0 {
        Seq::empty()
    } else {
        walk(services.drop_last()) + service_walk(services.last())
    }
}

/// The instance ids of a numbered accessory are dense and start at 1, each
/// service before its characteristics: the walk through the services meets
/// the ids 1, 2, 3 and so on, up to the number of instances.
pub proof fn lemma_numbered_walk(services: Seq<ServiceView>, accessory_id: u64)
    requires
        numbered(services, accessory_id),
    ensures
        instance_count(services) >= 0,
        walk(services) == Seq::new(instance_count(services) as nat, |i: int| i + 1),
    decreases services.len(),
{
    if services.len() == 0 {
        assert(walk(services) =~= Seq::new(0, |i: int| i + 1));
    } else {
        let n = services.len() - 1;
        let front = services.drop_last();
        assert forall|k: int| 0 <= k < front.len() implies (#[trigger] front[k]).numbered_from(
            1 + instances_before(front, k),
            accessory_id,
        ) by {
            assert(front[k] == services[k]);
            assert forall|j: int| 0 <= j < k implies (#[trigger] front[j]).characteristics.len()
                == services[j].characteristics.len() by {}
            lemma_instances_before_same_lengths(front, services, k);
        }
        lemma_numbered_walk(front, accessory_id);
        assert forall|j: int| 0 <= j < n implies (#[trigger] front[j]).characteristics.len()
            == services[j].characteristics.len() by {}
        lemma_instances_before_same_lengths(front, services, n);
        let last = services.last();
        assert(last.numbered_from(1 + instances_before(services, n), accessory_id));
        assert(walk(services) =~= Seq::new(instance_count(services) as nat, |i: int| i + 1));
    }
}

/// The JSON objects of the services.
pub open spec fn services_json(services: Seq<ServiceView>) -> Seq<JsonView> {
    Seq::new(services.len(), |i: int| service_json(services[i]))
}

/// The JSON object under which the accessory database lists an accessory:
/// its accessory id and its services.
pub open spec fn accessory_json(accessory: AccessoryView) -> JsonView {
    JsonView::Object(
        seq![
            ("aid"@, JsonView::Integer(accessory.id as int)),
            ("services"@, JsonView::Array(services_json(accessory.services))),
        ],
    )
}

impl Accessory {
    /// The JSON object under which the accessory database lists the
    /// accessory.
    pub fn to_json(&self) -> (json: JsonValue)
        ensures
            json@ == accessory_json(self@),
    {
        let mut items: Vec<JsonValue> = Vec::new();
        let mut i: usize = 0;
        while i < self.services.len()
            invariant
                0 <= i <= self.services@.len(),
                items@.len() == i,
                forall|j: int|
                    0 <= j < i ==> (#[trigger] items@[j])@ == service_json(self.services@[j]@),
            decreases self.services@.len() - i,
        {
            items.push(self.services[i].to_json());
            i += 1;
        }
        assert(array_view(items@) =~= services_json(self@.services));
        let mut members: Vec<(String, JsonValue)> = Vec::new();
        assert(object_view(members@) =~= Seq::empty());
        push_member(&mut members, "aid", JsonValue::unsigned(self.id));
        push_member(&mut members, "services", JsonValue::array(items));
        assert(object_view(members@) =~= accessory_json(self@)->Object_0);
        JsonValue::object(members)
    }
}

impl Accessory {
    /// Whether the accessory starts with its one Accessory Information
    /// service and has at most one primary service.
    pub fn is_well_formed(&self) -> (well_formed: bool)
        ensures
            well_formed == self@.well_formed(),
    {
        let ghost model = self@.services;
        if self.services.len() == 0 {
            return false;
        }
        let mut primaries: usize = 0;
        let mut first_primary: usize = 0;
        let mut i: usize = 0;
        while i < self.services.len()
            invariant
                0 <= i <= self.services@.len(),
                model == services_view(self.services@),
                model.len() >= 1,
                forall|k: int|
                    0 <= k < i ==> ((#[trigger] model[k]).hap_type == accessory_information::UUID@
                        <==> k == 0),
                primaries <= 1,
                primaries == 0 ==> forall|k: int| 0 <= k < i ==> !(#[trigger] model[k]).primary,
                primaries == 1 ==> first_primary < i && forall|k: int|
                    0 <= k < i ==> ((#[trigger] model[k]).primary <==> k == first_primary),
            decreases self.services@.len() - i,
        {
            assert(model[i as int] == self.services@[i as int]@);
            let is_information = crate::text::same_text(
                self.services[i].get_type().uuid(),
                accessory_information::UUID,
            );
            if is_information != (i == 0) {
                return false;
            }
            if self.services[i].get_primary() {
                if primaries == 1 {
                    assert(model[first_primary as int].primary && model[i as int].primary);
                    return false;
                }
                primaries = 1;
                first_primary = i;
            }
            i += 1;
        }
        true
    }

    /// The number of instance ids that the accessory takes, if it is less
    /// than the last 64-bit number, so that the accessory can be numbered.
    pub fn count_instances(&self) -> (count: Option<u64>)
        ensures
            match count {
                Some(n) => n == instance_count(self@.services) && n < u64::MAX,
                None => instance_count(self@.services) >= u64::MAX,
            },
    {
        let ghost model = self@.services;
        let mut count: u64 = 0;
        let mut i: usize = 0;
        while i < self.services.len()
            invariant
                0 <= i <= self.services@.len(),
                model == services_view(self.services@),
                count == instances_before(model, i as int),
                count < u64::MAX,
            decreases self.services@.len() - i,
        {
            assert(model[i as int] == self.services@[i as int]@);
            let n: usize = self.services[i].get_characteristics().len();
            if n as u128 + 1 + count as u128 >= u64::MAX as u128 {
                proof {
                    lemma_instances_before_monotone(model, i + 1, model.len() as int);
                }
                return None;
            }
            count = count + 1 + n as u64;
            i += 1;
        }
        Some(count)
    }
}

} // verus!
