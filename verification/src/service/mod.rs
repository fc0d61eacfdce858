//! Services: named groups of characteristics.

pub mod accessory_information;
pub mod generated;

use vstd::prelude::*;
use crate::characteristic::{characteristic_json, Characteristic, CharacteristicView};
use crate::hap_type::{shortened_uuid, HapType};
use crate::json::{array_view, object_view, push_member, JsonValue, JsonView};

verus! {

/// A service: its instance id, type and flags, and its characteristics in
/// the order of their definition, the required ones first.
#[derive(Debug)]
pub struct Service {
    id: u64,
    hap_type: HapType,
    hidden: bool,
    primary: bool,
    characteristics: Vec<Characteristic>,
}

/// The mathematical model of a [`Service`].
pub struct ServiceView {
    pub id: u64,
    pub hap_type: Seq<char>,
    pub hidden: bool,
    pub primary: bool,
    pub characteristics: Seq<CharacteristicView>,
}

/// The models of a list of characteristics.
pub open spec fn characteristics_view(characteristics: Seq<Characteristic>) -> Seq<
    CharacteristicView,
> {
    Seq::new(characteristics.len(), |i: int| characteristics[i]@)
}

impl ServiceView {
    /// The number of instance ids that the service takes: one for itself and
    /// one for each characteristic.
    pub open spec fn instances(self) -> int {
        1 + self.characteristics.len() as int
    }

    /// Whether the service has the instance id `first` and its
    /// characteristics the ids that follow it, in their order, and all of
    /// them the given accessory id.
    pub open spec fn numbered_from(self, first: int, accessory_id: u64) -> bool {
        &&& self.id == first
        &&& forall|i: int|
            0 <= i < self.characteristics.len() ==> {
                &&& (#[trigger] self.characteristics[i]).id == first + 1 + i
                &&& self.characteristics[i].accessory_id == accessory_id
            }
    }

    /// Whether the two services differ at most in the ids that numbering
    /// sets: the instance id of the service, and the instance and accessory
    /// id of each characteristic.
    pub open spec fn same_but_ids(self, other: ServiceView) -> bool {
        &&& self.hap_type == other.hap_type
        &&& self.hidden == other.hidden
        &&& self.primary == other.primary
        &&& self.characteristics.len() == other.characteristics.len()
        &&& forall|i: int|
            0 <= i < self.characteristics.len() ==> (#[trigger] self.characteristics[i])
                == (CharacteristicView {
                id: self.characteristics[i].id,
                accessory_id: self.characteristics[i].accessory_id,
                ..other.characteristics[i]
            })
    }
}

impl ServiceView {
    /// The service with another characteristic in the given place.
    pub open spec fn with_characteristic(
        self,
        c: int,
        characteristic: CharacteristicView,
    ) -> ServiceView {
        ServiceView { characteristics: self.characteristics.update(c, characteristic), ..self }
    }
}

impl View for Service {
    type V = ServiceView;

    closed spec fn view(&self) -> ServiceView {
        ServiceView {
            id: self.id,
            hap_type: self.hap_type@,
            hidden: self.hidden,
            primary: self.primary,
            characteristics: characteristics_view(self.characteristics@),
        }
    }
}

impl Service {
    /// A service of the given type with the given characteristics. It has no
    /// instance id yet (the id is zero) and is neither hidden nor primary.
    pub fn new(hap_type: HapType, characteristics: Vec<Characteristic>) -> (service: Service)
        ensures
            service@ == (ServiceView {
                id: 0,
                hap_type: hap_type@,
                hidden: false,
                primary: false,
                characteristics: characteristics_view(characteristics@),
            }),
    {
        Service { id: 0, hap_type, hidden: false, primary: false, characteristics }
    }

    /// The instance id.
    pub fn get_id(&self) -> (id: u64)
        ensures
            id == self@.id,
    {
        self.id
    }

    /// Sets the instance id.
    pub fn set_id(&mut self, id: u64)
        ensures
            final(self)@ == (ServiceView { id, ..old(self)@ }),
    {
        self.id = id;
    }

    /// The type.
    pub fn get_type(&self) -> (hap_type: &HapType)
        ensures
            hap_type@ == self@.hap_type,
    {
        &self.hap_type
    }

    /// Whether the service is hidden.
    pub fn get_hidden(&self) -> (hidden: bool)
        ensures
            hidden == self@.hidden,
    {
        self.hidden
    }

    /// Hides or shows the service.
    pub fn set_hidden(&mut self, hidden: bool)
        ensures
            final(self)@ == (ServiceView { hidden, ..old(self)@ }),
    {
        self.hidden = hidden;
    }

    /// Whether the service is the primary service of its accessory.
    pub fn get_primary(&self) -> (primary: bool)
        ensures
            primary == self@.primary,
    {
        self.primary
    }

    /// Makes the service primary or not.
    pub fn set_primary(&mut self, primary: bool)
        ensures
            final(self)@ == (ServiceView { primary, ..old(self)@ }),
    {
        self.primary = primary;
    }

    /// The characteristics, in the order of their definition.
    pub fn get_characteristics(&self) -> (characteristics: &Vec<Characteristic>)
        ensures
            characteristics_view(characteristics@) == self@.characteristics,
    {
        &self.characteristics
    }

    /// The characteristics, for change.
    pub fn get_mut_characteristics(&mut self) -> (characteristics: &mut Vec<Characteristic>)
        ensures
            characteristics_view(characteristics@) == old(self)@.characteristics,
            final(self)@ == (ServiceView {
                characteristics: characteristics_view(final(characteristics)@),
                ..old(self)@
            }),
    {
        &mut self.characteristics
    }

    /// The place of the characteristic with the given instance id.
    pub fn find_characteristic(&self, iid: u64) -> (place: Option<usize>)
        ensures
            match place {
                Some(c) => c < self@.characteristics.len() && self@.characteristics[c as int].id
                    == iid,
                None => forall|c: int|
                    0 <= c < self@.characteristics.len() ==> (#[trigger] self@.characteristics[c]).id
                        != iid,
            },
    {
        let mut c: usize = 0;
        while c < self.characteristics.len()
            invariant
                0 <= c <= self.characteristics@.len(),
                forall|j: int| 0 <= j < c ==> (#[trigger] self.characteristics@[j])@.id != iid,
            decreases self.characteristics@.len() - c,
        {
            if self.characteristics[c].get_id() == iid {
                assert(self@.characteristics[c as int] == self.characteristics@[c as int]@);
                return Some(c);
            }
            c += 1;
        }
        assert forall|j: int| 0 <= j < self@.characteristics.len() implies (
        #[trigger] self@.characteristics[j]).id != iid by {
            assert(self@.characteristics[j] == self.characteristics@[j]@);
        }
        None
    }

    /// The characteristic in the given place.
    pub fn get_characteristic(&self, c: usize) -> (characteristic: &Characteristic)
        requires
            c < self@.characteristics.len(),
        ensures
            characteristic@ == self@.characteristics[c as int],
    {
        &self.characteristics[c]
    }

    /// The characteristic in the given place, for change.
    pub fn get_mut_characteristic(&mut self, c: usize) -> (characteristic: &mut Characteristic)
        requires
            c < old(self)@.characteristics.len(),
        ensures
            characteristic@ == old(self)@.characteristics[c as int],
            final(self)@ == old(self)@.with_characteristic(c as int, final(characteristic)@),
    {
        let characteristic = &mut self.characteristics[c];
        proof {
            assert(characteristics_view(
                old(self).characteristics@.update(c as int, *final(characteristic)),
            ) =~= characteristics_view(old(self).characteristics@).update(
                c as int,
                final(characteristic)@,
            ));
        }
        characteristic
    }

    /// Numbers the service and its characteristics: the service takes the
    /// instance id `first`, its characteristics the ids that follow, and each
    /// characteristic the accessory id. Returns the next free instance id.
    pub fn init_iids(&mut self, first: u64, accessory_id: u64) -> (next: u64)
        requires
            first + old(self)@.instances() <= u64::MAX,
        ensures
            next == first + old(self)@.instances(),
            final(self)@.numbered_from(first as int, accessory_id),
            final(self)@.same_but_ids(old(self)@),
    {
        self.id = first;
        let mut next: u64 = first + 1;
        let mut i: usize = 0;
        while i < self.characteristics.len()
            invariant
                0 <= i <= self.characteristics@.len(),
                self.characteristics@.len() == old(self).characteristics@.len(),
                first + 1 + self.characteristics@.len() <= u64::MAX,
                next == first + 1 + i,
                self.id == first,
                self.hap_type == old(self).hap_type,
                self.hidden == old(self).hidden,
                self.primary == old(self).primary,
                forall|j: int|
                    0 <= j < i ==> (#[trigger] self.characteristics@[j])@ == (CharacteristicView {
                        id: (first + 1 + j) as u64,
                        accessory_id,
                        ..old(self).characteristics@[j]@
                    }),
                forall|j: int|
                    i <= j < self.characteristics@.len() ==> (#[trigger] self.characteristics@[j])
                        == old(self).characteristics@[j],
            decreases self.characteristics@.len() - i,
        {
            let characteristic = &mut self.characteristics[i];
            characteristic.set_id(next);
            characteristic.set_accessory_id(accessory_id);
            next += 1;
            i += 1;
        }
        proof {
            let after = self@;
            let before = old(self)@;
            assert forall|j: int| 0 <= j < after.characteristics.len() implies {
                &&& (#[trigger] after.characteristics[j]).id == first + 1 + j
                &&& after.characteristics[j].accessory_id == accessory_id
                &&& after.characteristics[j] == (CharacteristicView {
                    id: after.characteristics[j].id,
                    accessory_id: after.characteristics[j].accessory_id,
                    ..before.characteristics[j]
                })
            } by {
                assert(after.characteristics[j] == self.characteristics@[j]@);
                assert(before.characteristics[j] == old(self).characteristics@[j]@);
            }
        }
        next
    }
}

/// The JSON objects of the characteristics.
pub open spec fn characteristics_json(characteristics: Seq<CharacteristicView>) -> Seq<JsonView> {
    Seq::new(characteristics.len(), |i: int| characteristic_json(characteristics[i]))
}

/// The JSON object under which the accessory database lists a service: its
/// instance id, shortened type and flags, and its characteristics.
pub open spec fn service_json(service: ServiceView) -> JsonView {
    JsonView::Object(
        seq![
            ("iid"@, JsonView::Integer(service.id as int)),
            ("type"@, JsonView::String(shortened_uuid(service.hap_type))),
            ("hidden"@, JsonView::Bool(service.hidden)),
            ("primary"@, JsonView::Bool(service.primary)),
            ("characteristics"@, JsonView::Array(characteristics_json(service.characteristics))),
        ],
    )
}

impl Service {
    /// The JSON object under which the accessory database lists the service.
    pub fn to_json(&self) -> (json: JsonValue)
        ensures
            json@ == service_json(self@),
    {
        let mut items: Vec<JsonValue> = Vec::new();
        let mut i: usize = 0;
        while i < self.characteristics.len()
            invariant
                0 <= i <= self.characteristics@.len(),
                items@.len() == i,
                forall|j: int|
                    0 <= j < i ==> (#[trigger] items@[j])@ == characteristic_json(
                        self.characteristics@[j]@,
                    ),
            decreases self.characteristics@.len() - i,
        {
            items.push(self.characteristics[i].to_json());
            i += 1;
        }
        assert(array_view(items@) =~= characteristics_json(self@.characteristics));
        let mut members: Vec<(String, JsonValue)> = Vec::new();
        assert(object_view(members@) =~= Seq::empty());
        push_member(&mut members, "iid", JsonValue::unsigned(self.id));
        push_member(&mut members, "type", JsonValue::String(self.hap_type.to_string()));
        push_member(&mut members, "hidden", JsonValue::Bool(self.hidden));
        push_member(&mut members, "primary", JsonValue::Bool(self.primary));
        push_member(&mut members, "characteristics", JsonValue::array(items));
        assert(object_view(members@) =~= service_json(self@)->Object_0);
        JsonValue::object(members)
    }
}

} // verus!
