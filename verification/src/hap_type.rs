//! HAP service and characteristic types, identified by their UUID.

use vstd::prelude::*;
use vstd::string::*;
use crate::text::{
    first_index_of, leading_run, lemma_first_index_of_unique, lemma_leading_run_unique,
};

verus! {

/// The first dash-separated group of a UUID.
pub open spec fn first_group(id: Seq<char>) -> Seq<char> {
    id.subrange(0, first_index_of(id, '-'))
}

/// The shortened form of a UUID: its first group without leading zeroes.
pub open spec fn shortened_uuid(id: Seq<char>) -> Seq<char> {
    let group = first_group(id);
    group.subrange(leading_run(group, '0'), group.len() as int)
}

/// Shortens a UUID to the form in which HAP serialises it: the first
/// dash-separated group, with its leading zeroes removed.
pub fn shorten_uuid(id: &str) -> (short: String)
    ensures
        short@ == shortened_uuid(id@),
{
    let n: usize = id.unicode_len();
    let mut end: usize = 0;
    while end < n && id.get_char(end) != '-'
        invariant
            n == id@.len(),
            0 <= end <= n,
            forall|i: int| 0 <= i < end ==> id@[i] != '-',
        decreases n - end,
    {
        end += 1;
    }
    proof {
        lemma_first_index_of_unique(id@, '-', end as int);
    }
    let mut start: usize = 0;
    while start < end && id.get_char(start) == '0'
        invariant
            n == id@.len(),
            0 <= start <= end <= n,
            forall|i: int| 0 <= i < start ==> id@[i] == '0',
        decreases end - start,
    {
        start += 1;
    }
    proof {
        let group = first_group(id@);
        assert(group.len() == end);
        assert forall|i: int| 0 <= i < start implies group[i] == '0' by {
            assert(group[i] == id@[i]);
        }
        lemma_leading_run_unique(group, '0', start as int);
        assert(id@.subrange(start as int, end as int) =~= shortened_uuid(id@));
    }
    id.substring_char(start, end).to_owned()
}

/// The type of a service or characteristic: a UUID in its full textual form.
#[derive(Debug)]
pub struct HapType {
    uuid: String,
}

impl View for HapType {
    type V = Seq<char>;

    closed spec fn view(&self) -> Seq<char> {
        self.uuid@
    }
}

impl HapType {
    /// The type with the given UUID.
    pub fn new(uuid: &str) -> (hap_type: HapType)
        ensures
            hap_type@ == uuid@,
    {
        HapType { uuid: uuid.to_owned() }
    }

    /// The full UUID.
    pub fn uuid(&self) -> (uuid: &str)
        ensures
            uuid@ == self@,
    {
        self.uuid.as_str()
    }

    /// The shortened UUID under which the type is serialised.
    pub fn to_string(&self) -> (short: String)
        ensures
            short@ == shortened_uuid(self@),
    {
        shorten_uuid(self.uuid.as_str())
    }

    /// Whether two types carry the same UUID.
    pub fn same(&self, other: &HapType) -> (same: bool)
        ensures
            same == (self@ == other@),
    {
        self.uuid == other.uuid
    }
}

impl Clone for HapType {
    fn clone(&self) -> (copy: HapType)
        ensures
            copy@ == self@,
    {
        HapType { uuid: self.uuid.clone() }
    }
}

} // verus!
