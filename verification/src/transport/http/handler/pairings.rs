//! The pairings route: an admin adds, removes and lists pairings.

use vstd::prelude::*;
use vstd::string::*;
use crate::bytes::{copy_range, to_array_32};
use crate::pairing::{pairings_view, Pairing, PairingView};
use crate::text::text_of_bytes;
use crate::tlv::{
    decode, decode_items, encode, encode_items, find, items_view, value_of, IDENTIFIER, METHOD,
    PERMISSIONS, PUBLIC_KEY, SEPARATOR, STATE,
};

verus! {

/// The method of a request to add a pairing.
pub const ADD_PAIRING: u8 = 3;

/// The method of a request to remove a pairing.
pub const REMOVE_PAIRING: u8 = 4;

/// The method of a request to list the pairings.
pub const LIST_PAIRINGS: u8 = 5;

/// What a request to the pairings route asks for.
#[derive(Debug)]
pub enum PairingsRequest {
    Add { id: String, ltpk: [u8; 32], admin: bool },
    Remove { id: String },
    List,
}

/// The mathematical model of a [`PairingsRequest`].
pub enum PairingsRequestView {
    Add { id: Seq<char>, ltpk: Seq<u8>, admin: bool },
    Remove { id: Seq<char> },
    List,
}

impl View for PairingsRequest {
    type V = PairingsRequestView;

    open spec fn view(&self) -> PairingsRequestView {
        match self {
            PairingsRequest::Add { id, ltpk, admin } => PairingsRequestView::Add {
                id: id@,
                ltpk: ltpk@,
                admin: *admin,
            },
            PairingsRequest::Remove { id } => PairingsRequestView::Remove { id: id@ },
            PairingsRequest::List => PairingsRequestView::List,
        }
    }
}

/// The pairing id that an item gives: a text in UTF-8.
pub open spec fn id_of(value: Option<Seq<u8>>) -> Option<Seq<char>> {
    match value {
        Some(bytes) => if vstd::utf8::valid_utf8(bytes) {
            Some(vstd::utf8::decode_utf8(bytes))
        } else {
            None
        },
        None => None,
    }
}

/// Whether the permissions that an item gives are those of an admin: the
/// item holds one byte, 1 for an admin and 0 for another controller.
pub open spec fn admin_of(value: Option<Seq<u8>>) -> Option<bool> {
    match value {
        Some(bytes) => if bytes == seq![1u8] {
            Some(true)
        } else if bytes == seq![0u8] {
            Some(false)
        } else {
            None
        },
        None => None,
    }
}

/// What the items of a request ask for: the state must be 1, and the method
/// one of adding, which needs a pairing id, a public key of 32 bytes and the
/// permissions, of removing, which needs a pairing id, and of listing.
pub open spec fn request_of(items: Seq<(u8, Seq<u8>)>) -> Option<PairingsRequestView> {
    let method = value_of(items, METHOD);
    if value_of(items, STATE) != Some(seq![1u8]) {
        None
    } else if method == Some(seq![ADD_PAIRING]) {
        match (
            id_of(value_of(items, IDENTIFIER)),
            value_of(items, PUBLIC_KEY),
            admin_of(value_of(items, PERMISSIONS)),
        ) {
            (Some(id), Some(ltpk), Some(admin)) => if ltpk.len() == 32 {
                Some(PairingsRequestView::Add { id, ltpk, admin })
            } else {
                None
            },
            _ => None,
        }
    } else if method == Some(seq![REMOVE_PAIRING]) {
        match id_of(value_of(items, IDENTIFIER)) {
            Some(id) => Some(PairingsRequestView::Remove { id }),
            None => None,
        }
    } else if method == Some(seq![LIST_PAIRINGS]) {
        Some(PairingsRequestView::List)
    } else {
        None
    }
}

/// What the body of a request asks for.
pub open spec fn parsed(body: Seq<u8>) -> Option<PairingsRequestView> {
    match decode(body) {
        Some(items) => request_of(items),
        None => None,
    }
}

/// Whether the value of an item is the one given byte.
fn is_byte(value: Option<&Vec<u8>>, byte: u8) -> (is: bool)
    ensures
        is == match value {
            Some(v) => v@ == seq![byte],
            None => false,
        },
{
    match value {
        Some(v) => {
            if v.len() == 1 && v[0] == byte {
                assert(v@ =~= seq![byte]);
                true
            } else {
                false
            }
        },
        None => false,
    }
}

/// The pairing id that an item gives.
fn read_id(value: Option<&Vec<u8>>) -> (id: Option<String>)
    ensures
        match id {
            Some(id) => id_of(
                match value {
                    Some(v) => Some(v@),
                    None => None,
                },
            ) == Some(id@),
            None => id_of(
                match value {
                    Some(v) => Some(v@),
                    None => None,
                },
            ) is None,
        },
{
    match value {
        Some(bytes) => match text_of_bytes(bytes.as_slice()) {
            Some(id) => {
                proof {
                    vstd::utf8::encode_utf8_decode_utf8(id@);
                }
                Some(id)
            },
            None => None,
        },
        None => None,
    }
}

/// Reads what the body of a request asks for.
pub fn parse(body: &[u8]) -> (request: Option<PairingsRequest>)
    ensures
        match request {
            Some(r) => parsed(body@) == Some(r@),
            None => parsed(body@) is None,
        },
{
    let items = match decode_items(body) {
        Some(items) => items,
        None => {
            return None;
        },
    };
    if !is_byte(find(&items, STATE), 1) {
        return None;
    }
    let method = find(&items, METHOD);
    if is_byte(method, ADD_PAIRING) {
        let id = match read_id(find(&items, IDENTIFIER)) {
            Some(id) => id,
            None => {
                return None;
            },
        };
        let ltpk = match find(&items, PUBLIC_KEY) {
            Some(ltpk) => ltpk,
            None => {
                return None;
            },
        };
        let permissions = find(&items, PERMISSIONS);
        let admin = if is_byte(permissions, 1) {
            true
        } else if is_byte(permissions, 0) {
            false
        } else {
            return None;
        };
        match to_array_32(ltpk.as_slice()) {
            Some(ltpk) => Some(PairingsRequest::Add { id, ltpk, admin }),
            None => None,
        }
    } else if is_byte(method, REMOVE_PAIRING) {
        match read_id(find(&items, IDENTIFIER)) {
            Some(id) => Some(PairingsRequest::Remove { id }),
            None => None,
        }
    } else if is_byte(method, LIST_PAIRINGS) {
        Some(PairingsRequest::List)
    } else {
        None
    }
}

/// The items that list the first `k` pairings: after the state 2, for each
/// pairing its id, its public key and its permissions, with a separator
/// between one pairing and the next.
pub open spec fn listed(pairings: Seq<PairingView>, k: int) -> Seq<(u8, Seq<u8>)>
    decreases k,
{
    if k <= 0 {
        seq![(STATE, seq![2u8])]
    } else {
        let pairing = pairings[k - 1];
        let entry = seq![
            (IDENTIFIER, vstd::utf8::encode_utf8(pairing.id)),
            (PUBLIC_KEY, pairing.ltpk),
            (PERMISSIONS, seq![if pairing.admin {
                1u8
            } else {
                0u8
            }]),
        ];
        if k == 1 {
            listed(pairings, k - 1) + entry
        } else {
            listed(pairings, k - 1) + seq![(SEPARATOR, Seq::<u8>::empty())] + entry
        }
    }
}

/// The answer that lists the pairings.
pub open spec fn list_response(pairings: Seq<PairingView>) -> Seq<u8> {
    encode(listed(pairings, pairings.len() as int))
}

/// The answer that lists the pairings.
pub fn respond_list(pairings: &Vec<Pairing>) -> (response: Vec<u8>)
    ensures
        response@ == list_response(pairings_view(pairings@)),
{
    let ghost model = pairings_view(pairings@);
    let mut items: Vec<(u8, Vec<u8>)> = Vec::new();
    let mut state: Vec<u8> = Vec::new();
    state.push(2);
    items.push((STATE, state));
    assert(items_view(items@) =~= listed(model, 0));
    let mut i: usize = 0;
    while i < pairings.len()
        invariant
            0 <= i <= pairings@.len(),
            model == pairings_view(pairings@),
            items_view(items@) == listed(model, i as int),
        decreases pairings@.len() - i,
    {
        let ghost before = items_view(items@);
        let pairing = &pairings[i];
        assert(model[i as int] == pairing@);
        if i > 0 {
            items.push((SEPARATOR, Vec::new()));
        }
        let id = pairing.id.as_str().as_bytes();
        let id = copy_range(id, 0, id.len());
        assert(id@ =~= vstd::utf8::encode_utf8(pairing.id@));
        let ltpk = copy_range(pairing.ltpk.as_slice(), 0, 32);
        assert(ltpk@ =~= pairing.ltpk@);
        let mut permissions: Vec<u8> = Vec::new();
        permissions.push(if pairing.admin {
            1
        } else {
            0
        });
        items.push((IDENTIFIER, id));
        items.push((PUBLIC_KEY, ltpk));
        items.push((PERMISSIONS, permissions));
        assert(items_view(items@) =~= listed(model, i + 1));
        i += 1;
    }
    encode_items(&items)
}

} // verus!
