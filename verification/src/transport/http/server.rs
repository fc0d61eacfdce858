//! Per-session state of the HTTP server.

use vstd::prelude::*;

verus! {

/// The characteristics that a session is subscribed to: a set of pairs of
/// accessory id and instance id.
#[derive(Debug)]
pub struct EventSubscriptions {
    pairs: Vec<(u64, u64)>,
}

impl View for EventSubscriptions {
    type V = Set<(u64, u64)>;

    closed spec fn view(&self) -> Set<(u64, u64)> {
        self.pairs@.to_set()
    }
}

impl EventSubscriptions {
    /// No subscriptions.
    pub fn new() -> (subscriptions: EventSubscriptions)
        ensures
            subscriptions@ == Set::<(u64, u64)>::empty(),
    {
        let subscriptions = EventSubscriptions { pairs: Vec::new() };
        assert(subscriptions@ =~= Set::<(u64, u64)>::empty());
        subscriptions
    }

    /// Whether the session is subscribed to the characteristic.
    pub fn contains(&self, aid: u64, iid: u64) -> (subscribed: bool)
        ensures
            subscribed == self@.contains((aid, iid)),
    {
        let mut i: usize = 0;
        while i < self.pairs.len()
            invariant
                0 <= i <= self.pairs@.len(),
                forall|j: int| 0 <= j < i ==> self.pairs@[j] != (aid, iid),
            decreases self.pairs@.len() - i,
        {
            let pair = self.pairs[i];
            if pair.0 == aid && pair.1 == iid {
                assert(self.pairs@[i as int] == (aid, iid));
                return true;
            }
            i += 1;
        }
        false
    }

    /// Subscribes the session to the characteristic.
    pub fn subscribe(&mut self, aid: u64, iid: u64)
        ensures
            final(self)@ == old(self)@.insert((aid, iid)),
    {
        if !self.contains(aid, iid) {
            self.pairs.push((aid, iid));
            assert(self.pairs@ == old(self).pairs@.push((aid, iid)));
            assert forall|p: (u64, u64)| self@.contains(p) <==> old(self)@.insert(
                (aid, iid),
            ).contains(p) by {
                if self@.contains(p) {
                    let j = choose|j: int| 0 <= j < self.pairs@.len() && self.pairs@[j] == p;
                    if j < old(self).pairs@.len() {
                        assert(old(self).pairs@[j] == p);
                    }
                }
                if old(self)@.contains(p) {
                    let j = choose|j: int|
                        0 <= j < old(self).pairs@.len() && old(self).pairs@[j] == p;
                    assert(self.pairs@[j] == p);
                }
                if p == (aid, iid) {
                    assert(self.pairs@[old(self).pairs@.len() as int] == p);
                }
            }
            assert(self@ =~= old(self)@.insert((aid, iid)));
        } else {
            assert(self@ =~= old(self)@.insert((aid, iid)));
        }
    }

    /// Ends the session's subscription to the characteristic.
    pub fn unsubscribe(&mut self, aid: u64, iid: u64)
        ensures
            final(self)@ == old(self)@.remove((aid, iid)),
    {
        let mut kept: Vec<(u64, u64)> = Vec::new();
        let mut i: usize = 0;
        while i < self.pairs.len()
            invariant
                0 <= i <= self.pairs@.len(),
                self.pairs == old(self).pairs,
                forall|j: int| 0 <= j < kept@.len() ==> kept@[j] != (aid, iid),
                forall|j: int|
                    0 <= j < kept@.len() ==> exists|k: int|
                        0 <= k < i && self.pairs@[k] == #[trigger] kept@[j],
                forall|k: int|
                    0 <= k < i && self.pairs@[k] != (aid, iid) ==> exists|j: int|
                        0 <= j < kept@.len() && kept@[j] == #[trigger] self.pairs@[k],
            decreases self.pairs@.len() - i,
        {
            let pair = self.pairs[i];
            if !(pair.0 == aid && pair.1 == iid) {
                let ghost before = kept@;
                kept.push(pair);
                assert forall|k: int|
                    0 <= k < i + 1 && self.pairs@[k] != (aid, iid) implies exists|j: int|
                    0 <= j < kept@.len() && kept@[j] == #[trigger] self.pairs@[k] by {
                    if k < i {
                        let j = choose|j: int| 0 <= j < before.len() && before[j] == self.pairs@[k];
                        assert(kept@[j] == self.pairs@[k]);
                    } else {
                        assert(kept@[before.len() as int] == self.pairs@[k]);
                    }
                }
                assert forall|j: int| 0 <= j < kept@.len() implies exists|k: int|
                    0 <= k < i + 1 && self.pairs@[k] == #[trigger] kept@[j] by {
                    if j < before.len() {
                        let k = choose|k: int| 0 <= k < i && self.pairs@[k] == before[j];
                        assert(self.pairs@[k] == kept@[j]);
                    } else {
                        assert(self.pairs@[i as int] == kept@[j]);
                    }
                }
            } else {
                assert(self.pairs@[i as int] == (aid, iid));
            }
            i += 1;
        }
        let ghost old_pairs = self.pairs@;
        self.pairs = kept;
        assert forall|p: (u64, u64)| self@.contains(p) <==> old(self)@.remove(
            (aid, iid),
        ).contains(p) by {
            if self@.contains(p) {
                let j = choose|j: int| 0 <= j < self.pairs@.len() && self.pairs@[j] == p;
                let k = choose|k: int| 0 <= k < old_pairs.len() && old_pairs[k] == self.pairs@[j];
                assert(old_pairs[k] == p);
            }
            if old(self)@.remove((aid, iid)).contains(p) {
                let k = choose|k: int| 0 <= k < old_pairs.len() && old_pairs[k] == p;
                let j = choose|j: int| 0 <= j < self.pairs@.len() && self.pairs@[j] == old_pairs[k];
                assert(self.pairs@[j] == p);
            }
        }
        assert(self@ =~= old(self)@.remove((aid, iid)));
    }
}

} // verus!
