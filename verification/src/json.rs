//! A JSON document as a tree of plain values.

use vstd::prelude::*;

verus! {

/// A JSON value.
///
/// A number is either an integer or, where it is written with a fraction or
/// an exponent, the bit pattern of the nearest IEEE 754 single-precision
/// number. The members of an object keep their order.
#[derive(Debug)]
pub enum JsonValue {
    Null,
    Bool(bool),
    Integer(i128),
    Float(u32),
    String(String),
    Array(Vec<JsonValue>),
    Object(Vec<(String, JsonValue)>),
}

/// The mathematical model of a [`JsonValue`].
pub enum JsonView {
    Null,
    Bool(bool),
    Integer(int),
    Float(u32),
    String(Seq<char>),
    Array(Seq<JsonView>),
    Object(Seq<(Seq<char>, JsonView)>),
}

/// The model of a JSON value: the same tree over sequences.
pub open spec fn json_view(value: JsonValue) -> JsonView
    decreases value,
{
    match value {
        JsonValue::Null => JsonView::Null,
        JsonValue::Bool(b) => JsonView::Bool(b),
        JsonValue::Integer(i) => JsonView::Integer(i as int),
        JsonValue::Float(bits) => JsonView::Float(bits),
        JsonValue::String(s) => JsonView::String(s@),
        JsonValue::Array(items) => JsonView::Array(
            Seq::new(
                items@.len(),
                |i: int|
                    if 0 <= i < items@.len() {
                        json_view(items@[i])
                    } else {
                        JsonView::Null
                    },
            ),
        ),
        JsonValue::Object(members) => JsonView::Object(
            Seq::new(
                members@.len(),
                |i: int|
                    if 0 <= i < members@.len() {
                        (members@[i].0@, json_view(members@[i].1))
                    } else {
                        (Seq::empty(), JsonView::Null)
                    },
            ),
        ),
    }
}

impl View for JsonValue {
    type V = JsonView;

    open spec fn view(&self) -> JsonView {
        json_view(*self)
    }
}

/// The models of the items of an array.
pub open spec fn array_view(items: Seq<JsonValue>) -> Seq<JsonView> {
    Seq::new(items.len(), |i: int| items[i]@)
}

/// The models of the members of an object.
pub open spec fn object_view(members: Seq<(String, JsonValue)>) -> Seq<(Seq<char>, JsonView)> {
    Seq::new(members.len(), |i: int| (members[i].0@, members[i].1@))
}

/// The model of an array is the array of its items' models.
pub proof fn lemma_array_view(items: Vec<JsonValue>)
    ensures
        JsonValue::Array(items)@ == JsonView::Array(array_view(items@)),
{
    assert(JsonValue::Array(items)@->Array_0 =~= array_view(items@));
}

/// The model of an object is the sequence of its members' names and models.
pub proof fn lemma_object_view(members: Vec<(String, JsonValue)>)
    ensures
        JsonValue::Object(members)@ == JsonView::Object(object_view(members@)),
{
    assert(JsonValue::Object(members)@->Object_0 =~= object_view(members@));
}

/// The member of the given name, where there is a value for it.
pub open spec fn optional(name: Seq<char>, value: Option<JsonView>) -> Seq<(Seq<char>, JsonView)> {
    match value {
        Some(v) => seq![(name, v)],
        None => Seq::empty(),
    }
}

/// The value of the first member of the given name.
pub open spec fn member(members: Seq<(Seq<char>, JsonView)>, name: Seq<char>) -> Option<JsonView>
    decreases members.len(),
{
    if members.len() == 0 {
        None
    } else if members[0].0 == name {
        Some(members[0].1)
    } else {
        member(members.drop_first(), name)
    }
}

impl JsonValue {
    /// The JSON string of the text.
    pub fn text(text: &str) -> (json: JsonValue)
        ensures
            json@ == JsonView::String(text@),
    {
        JsonValue::String(text.to_owned())
    }

    /// The JSON number of the integer.
    pub fn unsigned(n: u64) -> (json: JsonValue)
        ensures
            json@ == JsonView::Integer(n as int),
    {
        JsonValue::Integer(n as i128)
    }

    /// The JSON array of the items.
    pub fn array(items: Vec<JsonValue>) -> (json: JsonValue)
        ensures
            json@ == JsonView::Array(array_view(items@)),
    {
        proof {
            lemma_array_view(items);
        }
        JsonValue::Array(items)
    }

    /// The JSON object of the members.
    pub fn object(members: Vec<(String, JsonValue)>) -> (json: JsonValue)
        ensures
            json@ == JsonView::Object(object_view(members@)),
    {
        proof {
            lemma_object_view(members);
        }
        JsonValue::Object(members)
    }

    /// The value of the first member of the given name, if this is an
    /// object that has one.
    pub fn get(&self, name: &str) -> (value: Option<&JsonValue>)
        ensures
            match value {
                Some(v) => self@ is Object && member(self@->Object_0, name@) == Some(v@),
                None => !(self@ is Object) || member(self@->Object_0, name@) is None,
            },
    {
        match self {
            JsonValue::Object(members) => {
                proof {
                    lemma_object_view(*members);
                }
                let ghost model = object_view(members@);
                let mut i: usize = 0;
                assert(model.subrange(0, model.len() as int) =~= model);
                while i < members.len()
                    invariant
                        0 <= i <= members@.len(),
                        model == object_view(members@),
                        self@ == JsonView::Object(model),
                        member(model, name@) == member(
                            model.subrange(i as int, model.len() as int),
                            name@,
                        ),
                    decreases members@.len() - i,
                {
                    let ghost rest = model.subrange(i as int, model.len() as int);
                    assert(rest[0] == (members@[i as int].0@, members@[i as int].1@));
                    assert(rest.drop_first() =~= model.subrange(i + 1, model.len() as int));
                    if crate::text::same_text(members[i].0.as_str(), name) {
                        return Some(&members[i].1);
                    }
                    i += 1;
                }
                None
            },
            _ => None,
        }
    }
}

/// Adds a member to the members of an object.
pub fn push_member(members: &mut Vec<(String, JsonValue)>, name: &str, value: JsonValue)
    ensures
        object_view(final(members)@) == object_view(old(members)@) + seq![(name@, value@)],
{
    members.push((name.to_owned(), value));
    assert(object_view(members@) =~= object_view(old(members)@) + seq![(name@, value@)]);
}

/// Adds a member to the members of an object, where there is a value for
/// it.
pub fn push_optional(members: &mut Vec<(String, JsonValue)>, name: &str, value: Option<JsonValue>)
    ensures
        object_view(final(members)@) == object_view(old(members)@) + optional(
            name@,
            match value {
                Some(v) => Some(v@),
                None => None,
            },
        ),
{
    match value {
        Some(v) => {
            push_member(members, name, v);
        },
        None => {
            assert(object_view(members@) + Seq::empty() =~= object_view(members@));
        },
    }
}

impl Clone for JsonValue {
    fn clone(&self) -> (copy: JsonValue)
        ensures
            copy@ == self@,
        decreases self,
    {
        match self {
            JsonValue::Null => JsonValue::Null,
            JsonValue::Bool(b) => JsonValue::Bool(*b),
            JsonValue::Integer(i) => JsonValue::Integer(*i),
            JsonValue::Float(bits) => JsonValue::Float(*bits),
            JsonValue::String(s) => JsonValue::String(s.clone()),
            JsonValue::Array(items) => {
                let mut copies: Vec<JsonValue> = Vec::new();
                let mut i: usize = 0;
                while i < items.len()
                    invariant
                        0 <= i <= items@.len(),
                        *self == JsonValue::Array(*items),
                        copies@.len() == i,
                        forall|j: int| 0 <= j < i ==> (#[trigger] copies@[j])@ == items@[j]@,
                    decreases items@.len() - i,
                {
                    proof {
                        vstd::std_specs::vec::axiom_vec_index_decreases(*items, i as int);
                        assert(self->Array_0 == *items);
                        assert(decreases_to!(*self => self->Array_0));
                    }
                    copies.push(items[i].clone());
                    i += 1;
                }
                proof {
                    lemma_array_view(*items);
                    assert(array_view(copies@) =~= array_view(items@));
                }
                JsonValue::array(copies)
            },
            JsonValue::Object(members) => {
                let mut copies: Vec<(String, JsonValue)> = Vec::new();
                let mut i: usize = 0;
                while i < members.len()
                    invariant
                        0 <= i <= members@.len(),
                        *self == JsonValue::Object(*members),
                        copies@.len() == i,
                        forall|j: int|
                            0 <= j < i ==> (#[trigger] copies@[j]).0@ == members@[j].0@
                                && copies@[j].1@ == members@[j].1@,
                    decreases members@.len() - i,
                {
                    proof {
                        vstd::std_specs::vec::axiom_vec_index_decreases(*members, i as int);
                        assert(self->Object_0 == *members);
                        assert(decreases_to!(*self => self->Object_0));
                        assert(decreases_to!(members@[i as int] => members@[i as int].1));
                    }
                    copies.push((members[i].0.clone(), members[i].1.clone()));
                    i += 1;
                }
                proof {
                    lemma_object_view(*members);
                    assert(object_view(copies@) =~= object_view(members@));
                }
                JsonValue::object(copies)
            },
        }
    }
}

} // verus!
