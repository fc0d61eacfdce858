//! The pairing store: the controllers that are paired with the accessory.

use vstd::prelude::*;
use crate::error::Error;
use crate::text::same_text;

verus! {

/// The TLV error code of a failed authentication, with which the removal of
/// the last admin is refused.
pub const AUTHENTICATION: u8 = 0x02;

/// The pairing of one controller: its pairing id, its long-term public key
/// and whether it is an admin.
#[derive(Debug)]
pub struct Pairing {
    pub id: String,
    pub ltpk: [u8; 32],
    pub admin: bool,
}

/// The mathematical model of a [`Pairing`].
pub struct PairingView {
    pub id: Seq<char>,
    pub ltpk: Seq<u8>,
    pub admin: bool,
}

impl View for Pairing {
    type V = PairingView;

    open spec fn view(&self) -> PairingView {
        PairingView { id: self.id@, ltpk: self.ltpk@, admin: self.admin }
    }
}

impl Clone for Pairing {
    fn clone(&self) -> (copy: Pairing)
        ensures
            copy@ == self@,
    {
        Pairing { id: self.id.clone(), ltpk: self.ltpk, admin: self.admin }
    }
}

/// The models of a list of pairings.
pub open spec fn pairings_view(pairings: Seq<Pairing>) -> Seq<PairingView> {
    Seq::new(pairings.len(), |i: int| pairings[i]@)
}

/// Whether no two pairings of the list have the same id.
pub open spec fn distinct_ids(pairings: Seq<PairingView>) -> bool {
    forall|i: int, j: int|
        0 <= i < pairings.len() && 0 <= j < pairings.len() && (#[trigger] pairings[i]).id == (
        #[trigger] pairings[j]).id ==> i == j
}

/// The place of the pairing with the given id, or the length of the list
/// where there is none.
pub open spec fn place_of(pairings: Seq<PairingView>, id: Seq<char>) -> int
    decreases pairings.len(),
{
    if pairings.len() == 0 {
        0
    } else if pairings[0].id == id {
        0
    } else {
        1 + place_of(pairings.drop_first(), id)
    }
}

/// Whether a controller with the given id is paired.
pub open spec fn is_paired(pairings: Seq<PairingView>, id: Seq<char>) -> bool {
    exists|i: int| 0 <= i < pairings.len() && (#[trigger] pairings[i]).id == id
}

/// Whether one of the pairings is an admin.
pub open spec fn some_admin(pairings: Seq<PairingView>) -> bool {
    exists|i: int| 0 <= i < pairings.len() && (#[trigger] pairings[i]).admin
}

/// Whether the pairing in the given place is the only admin.
pub open spec fn only_admin(pairings: Seq<PairingView>, place: int) -> bool {
    &&& 0 <= place < pairings.len()
    &&& pairings[place].admin
    &&& forall|i: int| 0 <= i < pairings.len() && (#[trigger] pairings[i]).admin ==> i == place
}

/// The facts that characterise the place of a pairing.
pub proof fn lemma_place_of(pairings: Seq<PairingView>, id: Seq<char>)
    ensures
        0 <= place_of(pairings, id) <= pairings.len(),
        forall|i: int| 0 <= i < place_of(pairings, id) ==> (#[trigger] pairings[i]).id != id,
        place_of(pairings, id) < pairings.len() ==> pairings[place_of(pairings, id)].id == id,
        is_paired(pairings, id) <==> place_of(pairings, id) < pairings.len(),
    decreases pairings.len(),
{
    if pairings.len() == 0 || pairings[0].id == id {
    } else {
        let rest = pairings.drop_first();
        lemma_place_of(rest, id);
        assert forall|i: int| 0 <= i < place_of(pairings, id) implies (#[trigger] pairings[i]).id
            != id by {
            if i > 0 {
                assert(pairings[i] == rest[i - 1]);
            }
        }
        if is_paired(pairings, id) {
            let k = choose|k: int| 0 <= k < pairings.len() && (#[trigger] pairings[k]).id == id;
            assert(rest[k - 1].id == id);
        }
        if place_of(rest, id) < rest.len() {
            assert(pairings[place_of(rest, id) + 1] == rest[place_of(rest, id)]);
        }
    }
}

/// The pairings, each controller once, in the order in which they were
/// added.
#[derive(Debug)]
pub struct PairingStore {
    pairings: Vec<Pairing>,
}

impl View for PairingStore {
    type V = Seq<PairingView>;

    closed spec fn view(&self) -> Seq<PairingView> {
        pairings_view(self.pairings@)
    }
}

impl PairingStore {
    #[verifier::type_invariant]
    spec fn inv(self) -> bool {
        distinct_ids(pairings_view(self.pairings@))
    }

    /// A store without pairings.
    pub fn new() -> (store: PairingStore)
        ensures
            store@ == Seq::<PairingView>::empty(),
    {
        let store = PairingStore { pairings: Vec::new() };
        assert(store@ =~= Seq::<PairingView>::empty());
        store
    }

    /// The place of the pairing with the given id.
    fn find(&self, id: &str) -> (place: usize)
        ensures
            place == place_of(self@, id@),
            place <= self@.len(),
    {
        let ghost model = self@;
        let mut i: usize = 0;
        assert(model.subrange(0, model.len() as int) =~= model);
        while i < self.pairings.len()
            invariant
                0 <= i <= self.pairings@.len(),
                model == pairings_view(self.pairings@),
                place_of(model, id@) == i + place_of(
                    model.subrange(i as int, model.len() as int),
                    id@,
                ),
            decreases self.pairings@.len() - i,
        {
            let ghost rest = model.subrange(i as int, model.len() as int);
            assert(rest[0] == self.pairings@[i as int]@);
            assert(rest.drop_first() =~= model.subrange(i + 1, model.len() as int));
            if same_text(self.pairings[i].id.as_str(), id) {
                return i;
            }
            i += 1;
        }
        i
    }

    /// Whether a controller with the given id is paired.
    pub fn contains(&self, id: &str) -> (paired: bool)
        ensures
            paired == is_paired(self@, id@),
            distinct_ids(self@),
    {
        proof {
            use_type_invariant(self);
            lemma_place_of(self@, id@);
        }
        self.find(id) < self.pairings.len()
    }

    /// The pairing of the controller with the given id.
    pub fn get(&self, id: &str) -> (pairing: Option<Pairing>)
        ensures
            match pairing {
                Some(p) => is_paired(self@, id@) && p@ == self@[place_of(self@, id@)],
                None => !is_paired(self@, id@),
            },
    {
        proof {
            lemma_place_of(self@, id@);
        }
        let place = self.find(id);
        if place < self.pairings.len() {
            Some(self.pairings[place].clone())
        } else {
            None
        }
    }

    /// Adds the pairing of a controller. A controller that is paired already
    /// keeps its place and takes the new key and admin flag.
    pub fn add(&mut self, id: String, ltpk: [u8; 32], admin: bool)
        ensures
            distinct_ids(final(self)@),
            final(self)@ == (if is_paired(old(self)@, id@) {
                old(self)@.update(
                    place_of(old(self)@, id@),
                    PairingView { id: id@, ltpk: ltpk@, admin },
                )
            } else {
                old(self)@.push(PairingView { id: id@, ltpk: ltpk@, admin })
            }),
    {
        proof {
            use_type_invariant(&*self);
            lemma_place_of(self@, id@);
        }
        let place = self.find(id.as_str());
        let ghost before = self@;
        let ghost added = PairingView { id: id@, ltpk: ltpk@, admin };
        let mut pairings: Vec<Pairing> = Vec::new();
        std::mem::swap(&mut pairings, &mut self.pairings);
        if place < pairings.len() {
            pairings.set(place, Pairing { id, ltpk, admin });
            proof {
                assert(pairings_view(pairings@) =~= before.update(place as int, added));
            }
        } else {
            pairings.push(Pairing { id, ltpk, admin });
            proof {
                assert(pairings_view(pairings@) =~= before.push(added));
            }
        }
        proof {
            let after = pairings_view(pairings@);
            assert forall|i: int, j: int|
                0 <= i < after.len() && 0 <= j < after.len() && (#[trigger] after[i]).id == (
                #[trigger] after[j]).id implies i == j by {
                if i != place && j != place {
                    assert(before[i].id == before[j].id);
                } else if i != place {
                    assert(before[i].id == id@);
                } else if j != place {
                    assert(before[j].id == id@);
                }
            }
        }
        self.pairings = pairings;
    }

    /// Removes the pairing of a controller. The removal of the only admin is
    /// refused with the error of a failed authentication, and the pairing
    /// stays. A controller that is not paired is removed with success.
    pub fn remove(&mut self, id: &str) -> (result: Result<(), Error>)
        ensures
            distinct_ids(final(self)@),
            match result {
                Ok(()) => {
                    &&& !only_admin(old(self)@, place_of(old(self)@, id@))
                    &&& final(self)@ == (if is_paired(old(self)@, id@) {
                        old(self)@.remove(place_of(old(self)@, id@))
                    } else {
                        old(self)@
                    })
                    &&& !is_paired(final(self)@, id@)
                },
                Err(e) => {
                    &&& only_admin(old(self)@, place_of(old(self)@, id@))
                    &&& e == Error::PairingStatus(AUTHENTICATION)
                    &&& final(self)@ == old(self)@
                },
            },
    {
        proof {
            use_type_invariant(&*self);
            lemma_place_of(self@, id@);
        }
        let place = self.find(id);
        let ghost before = self@;
        if place >= self.pairings.len() {
            return Ok(());
        }
        if self.pairings[place].admin && self.count_admins() == 1 {
            proof {
                lemma_one_admin(before, place as int);
            }
            return Err(Error::PairingStatus(AUTHENTICATION));
        }
        proof {
            if only_admin(before, place as int) {
                lemma_one_admin(before, place as int);
            }
        }
        let mut pairings: Vec<Pairing> = Vec::new();
        std::mem::swap(&mut pairings, &mut self.pairings);
        pairings.remove(place);
        proof {
            let after = pairings_view(pairings@);
            assert(after =~= before.remove(place as int));
            assert forall|i: int, j: int|
                0 <= i < after.len() && 0 <= j < after.len() && (#[trigger] after[i]).id == (
                #[trigger] after[j]).id implies i == j by {
                let bi = if i < place { i } else { i + 1 };
                let bj = if j < place { j } else { j + 1 };
                assert(before[bi].id == before[bj].id);
            }
            assert forall|i: int| 0 <= i < after.len() implies (#[trigger] after[i]).id != id@ by {
                let bi = if i < place { i } else { i + 1 };
                assert(before[bi].id == after[i].id);
                assert(before[place as int].id == id@);
            }
        }
        self.pairings = pairings;
        Ok(())
    }

    /// The number of admins.
    fn count_admins(&self) -> (n: usize)
        ensures
            n == admins(self@, self@.len() as int),
    {
        let ghost model = self@;
        let mut n: usize = 0;
        let mut i: usize = 0;
        while i < self.pairings.len()
            invariant
                0 <= i <= self.pairings@.len(),
                model == pairings_view(self.pairings@),
                n == admins(model, i as int),
                n <= i,
            decreases self.pairings@.len() - i,
        {
            assert(model[i as int] == self.pairings@[i as int]@);
            if self.pairings[i].admin {
                n += 1;
            }
            i += 1;
        }
        n
    }

    /// The pairings, in the order in which they were added.
    pub fn list(&self) -> (pairings: Vec<Pairing>)
        ensures
            pairings_view(pairings@) == self@,
            distinct_ids(self@),
    {
        proof {
            use_type_invariant(self);
        }
        let mut pairings: Vec<Pairing> = Vec::new();
        let mut i: usize = 0;
        while i < self.pairings.len()
            invariant
                0 <= i <= self.pairings@.len(),
                pairings@.len() == i,
                forall|j: int| 0 <= j < i ==> (#[trigger] pairings@[j])@ == self.pairings@[j]@,
            decreases self.pairings@.len() - i,
        {
            pairings.push(self.pairings[i].clone());
            i += 1;
        }
        assert(pairings_view(pairings@) =~= self@);
        pairings
    }

    /// Whether one of the pairings is an admin.
    pub fn has_admin(&self) -> (has: bool)
        ensures
            has == some_admin(self@),
    {
        proof {
            lemma_admins(self@, self@.len() as int);
        }
        self.count_admins() > 0
    }

    /// The number of pairings.
    pub fn len(&self) -> (n: usize)
        ensures
            n == self@.len(),
    {
        self.pairings.len()
    }
}

/// The number of admins among the first `k` pairings.
pub open spec fn admins(pairings: Seq<PairingView>, k: int) -> int
    decreases k,
{
    if k <= 0 {
        0
    } else {
        admins(pairings, k - 1) + if pairings[k - 1].admin {
            1int
        } else {
            0int
        }
    }
}

/// There are admins among the first `k` pairings exactly if one of them is
/// an admin, and at most as many as pairings.
pub proof fn lemma_admins(pairings: Seq<PairingView>, k: int)
    requires
        0 <= k <= pairings.len(),
    ensures
        0 <= admins(pairings, k) <= k,
        admins(pairings, k) > 0 <==> exists|i: int| 0 <= i < k && (#[trigger] pairings[i]).admin,
    decreases k,
{
    if k > 0 {
        lemma_admins(pairings, k - 1);
        if admins(pairings, k - 1) > 0 {
            let i = choose|i: int| 0 <= i < k - 1 && (#[trigger] pairings[i]).admin;
            assert(pairings[i].admin);
        }
        if pairings[k - 1].admin {
            assert(pairings[k - 1].admin);
        }
        if exists|i: int| 0 <= i < k && (#[trigger] pairings[i]).admin {
            let i = choose|i: int| 0 <= i < k && (#[trigger] pairings[i]).admin;
            if i < k - 1 {
                assert(pairings[i].admin);
            }
        }
    }
}

/// Admins before a place and the admin in it are counted after it.
pub proof fn lemma_admins_count(pairings: Seq<PairingView>, i: int, k: int)
    requires
        0 <= i < k <= pairings.len(),
        pairings[i].admin,
    ensures
        admins(pairings, k) >= 1 + admins(pairings, i),
        admins(pairings, i) >= 0,
    decreases k,
{
    lemma_admins(pairings, i);
    if k > i + 1 {
        lemma_admins_count(pairings, i, k - 1);
    }
}

/// An admin is the only admin exactly if there is one admin in all.
pub proof fn lemma_one_admin(pairings: Seq<PairingView>, place: int)
    requires
        0 <= place < pairings.len(),
        pairings[place].admin,
    ensures
        only_admin(pairings, place) <==> admins(pairings, pairings.len() as int) == 1,
{
    let n = pairings.len() as int;
    lemma_admins_count(pairings, place, n);
    if admins(pairings, n) == 1 {
        assert forall|i: int| 0 <= i < n && (#[trigger] pairings[i]).admin implies i == place by {
            if i < place {
                lemma_admins_count(pairings, i, place);
                lemma_admins_count(pairings, place, n);
            } else if i > place {
                lemma_admins_count(pairings, place, i);
                lemma_admins_count(pairings, i, n);
            }
        }
    }
    if only_admin(pairings, place) {
        lemma_admins_only(pairings, place, n);
    }
}

/// Where one pairing is the only admin, the admins up to any point are that
/// one, once it is passed, and none before.
pub proof fn lemma_admins_only(pairings: Seq<PairingView>, place: int, k: int)
    requires
        only_admin(pairings, place),
        0 <= k <= pairings.len(),
    ensures
        admins(pairings, k) == (if k > place {
            1int
        } else {
            0int
        }),
    decreases k,
{
    if k > 0 {
        lemma_admins_only(pairings, place, k - 1);
        if pairings[k - 1].admin {
            assert(k - 1 == place);
        }
    }
}

/// The place of the first pairing whose id is written with the given
/// bytes, or the length of the list where there is none.
pub open spec fn place_of_bytes(pairings: Seq<PairingView>, id: Seq<u8>) -> int
    decreases pairings.len(),
{
    if pairings.len() == 0 {
        0
    } else if vstd::utf8::encode_utf8(pairings[0].id) == id {
        0
    } else {
        1 + place_of_bytes(pairings.drop_first(), id)
    }
}

/// The place is within the list or at its end.
pub proof fn lemma_place_of_bytes(pairings: Seq<PairingView>, id: Seq<u8>)
    ensures
        0 <= place_of_bytes(pairings, id) <= pairings.len(),
    decreases pairings.len(),
{
    if pairings.len() > 0 && vstd::utf8::encode_utf8(pairings[0].id) != id {
        lemma_place_of_bytes(pairings.drop_first(), id);
    }
}

impl PairingStore {
    /// The pairing of the controller whose id is written with the given
    /// bytes.
    pub fn get_by_bytes(&self, id: &[u8]) -> (pairing: Option<Pairing>)
        ensures
            match pairing {
                Some(p) => place_of_bytes(self@, id@) < self@.len() && p@ == self@[place_of_bytes(
                    self@,
                    id@,
                )],
                None => place_of_bytes(self@, id@) >= self@.len(),
            },
    {
        let ghost model = self@;
        let mut i: usize = 0;
        assert(model.subrange(0, model.len() as int) =~= model);
        while i < self.pairings.len()
            invariant
                0 <= i <= self.pairings@.len(),
                model == pairings_view(self.pairings@),
                place_of_bytes(model, id@) == i + place_of_bytes(
                    model.subrange(i as int, model.len() as int),
                    id@,
                ),
            decreases self.pairings@.len() - i,
        {
            let ghost rest = model.subrange(i as int, model.len() as int);
            assert(rest[0] == self.pairings@[i as int]@);
            assert(rest.drop_first() =~= model.subrange(i + 1, model.len() as int));
            if crate::bytes::same_bytes(self.pairings[i].id.as_str().as_bytes(), id) {
                return Some(self.pairings[i].clone());
            }
            i += 1;
        }
        None
    }
}

} // verus!
