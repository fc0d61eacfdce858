//! TLV8: the type-length-value encoding of the pairing messages.
//!
//! An item is a tag and a value. It is written as fragments of at most 255
//! bytes, each after the tag and the length of the fragment. A fragment that
//! follows a full fragment of the same tag continues its value.

use vstd::prelude::*;

verus! {

/// The largest number of bytes in one fragment.
pub const MAX_FRAGMENT_LEN: usize = 255;

/// The tags of the pairing messages.
pub const METHOD: u8 = 0x00;

pub const IDENTIFIER: u8 = 0x01;

pub const SALT: u8 = 0x02;

pub const PUBLIC_KEY: u8 = 0x03;

pub const PROOF: u8 = 0x04;

pub const ENCRYPTED_DATA: u8 = 0x05;

pub const STATE: u8 = 0x06;

pub const ERROR: u8 = 0x07;

pub const SIGNATURE: u8 = 0x0a;

pub const PERMISSIONS: u8 = 0x0b;

pub const SEPARATOR: u8 = 0xff;

/// The models of a list of items.
pub open spec fn items_view(items: Seq<(u8, Vec<u8>)>) -> Seq<(u8, Seq<u8>)> {
    Seq::new(items.len(), |i: int| (items[i].0, items[i].1@))
}

/// The bytes of one item: its fragments, each after the tag and its length.
/// All fragments but the last are full; an empty value is one empty
/// fragment.
pub open spec fn encode_item(tag: u8, value: Seq<u8>) -> Seq<u8>
    decreases value.len(),
{
    if value.len() <= MAX_FRAGMENT_LEN {
        seq![tag, value.len() as u8] + value
    } else {
        seq![tag, 255u8] + value.subrange(0, MAX_FRAGMENT_LEN as int) + encode_item(
            tag,
            value.subrange(MAX_FRAGMENT_LEN as int, value.len() as int),
        )
    }
}

/// The bytes of a list of items, one after the other.
pub open spec fn encode(items: Seq<(u8, Seq<u8>)>) -> Seq<u8>
    decreases items.len(),
{
    if items.len() == 0 {
        Seq::empty()
    } else {
        encode_item(items[0].0, items[0].1) + encode(items.drop_first())
    }
}

/// The items that are read when a fragment is added to the items read so
/// far: the fragment continues the last item if that ended in a full
/// fragment of the same tag, and starts an item otherwise.
pub open spec fn with_fragment(
    items: Seq<(u8, Seq<u8>)>,
    continues: bool,
    tag: u8,
    fragment: Seq<u8>,
) -> Seq<(u8, Seq<u8>)> {
    if continues && items.len() > 0 && items.last().0 == tag {
        items.drop_last().push((tag, items.last().1 + fragment))
    } else {
        items.push((tag, fragment))
    }
}

/// The items that the bytes hold, read after the given items, of which the
/// last ended in a full fragment if `continues` says so. There are none
/// where a fragment is cut short.
pub open spec fn decode_after(bytes: Seq<u8>, items: Seq<(u8, Seq<u8>)>, continues: bool) -> Option<
    Seq<(u8, Seq<u8>)>,
>
    decreases bytes.len(),
{
    if bytes.len() == 0 {
        Some(items)
    } else if bytes.len() < 2 || bytes.len() < 2 + bytes[1] {
        None
    } else {
        decode_after(
            bytes.subrange(2 + bytes[1], bytes.len() as int),
            with_fragment(items, continues, bytes[0], bytes.subrange(2, 2 + bytes[1])),
            bytes[1] == 255,
        )
    }
}

/// The items that the bytes hold.
pub open spec fn decode(bytes: Seq<u8>) -> Option<Seq<(u8, Seq<u8>)>> {
    decode_after(bytes, Seq::empty(), false)
}

/// Whether the value ends in a full fragment.
pub open spec fn ends_full(value: Seq<u8>) -> bool {
    value.len() > 0 && value.len() % 255 == 0
}

/// Whether the items can be told apart when they are read back: no item
/// that ends in a full fragment is followed by an item of the same tag.
pub open spec fn separable(items: Seq<(u8, Seq<u8>)>) -> bool {
    forall|i: int|
        0 <= i < items.len() - 1 && (#[trigger] items[i]).0 == items[i + 1].0 ==> !ends_full(
            items[i].1,
        )
}

/// Reading the fragments of a value that continue an item adds the value to
/// that item.
pub proof fn lemma_decode_continued(
    tag: u8,
    value: Seq<u8>,
    rest: Seq<u8>,
    items: Seq<(u8, Seq<u8>)>,
    begun: Seq<u8>,
)
    requires
        value.len() > 0,
    ensures
        decode_after(encode_item(tag, value) + rest, items.push((tag, begun)), true)
            == decode_after(rest, items.push((tag, begun + value)), ends_full(value)),
    decreases value.len(),
{
    let bytes = encode_item(tag, value) + rest;
    let before = items.push((tag, begun));
    assert(before.drop_last() =~= items);
    if value.len() <= MAX_FRAGMENT_LEN {
        assert(bytes[0] == tag && bytes[1] == value.len());
        assert(bytes.subrange(2, 2 + bytes[1]) =~= value);
        assert(bytes.subrange(2 + bytes[1], bytes.len() as int) =~= rest);
    } else {
        let first = value.subrange(0, MAX_FRAGMENT_LEN as int);
        let more = value.subrange(MAX_FRAGMENT_LEN as int, value.len() as int);
        assert(bytes[0] == tag && bytes[1] == 255);
        assert(bytes.subrange(2, 2 + bytes[1]) =~= first);
        assert(bytes.subrange(2 + bytes[1], bytes.len() as int) =~= encode_item(tag, more) + rest);
        lemma_decode_continued(tag, more, rest, items, begun + first);
        assert(begun + first + more =~= begun + value);
    }
}

/// Reading the fragments of an item that starts anew adds the item.
pub proof fn lemma_decode_item(
    tag: u8,
    value: Seq<u8>,
    rest: Seq<u8>,
    items: Seq<(u8, Seq<u8>)>,
    continues: bool,
)
    requires
        !(continues && items.len() > 0 && items.last().0 == tag),
    ensures
        decode_after(encode_item(tag, value) + rest, items, continues) == decode_after(
            rest,
            items.push((tag, value)),
            ends_full(value),
        ),
{
    let bytes = encode_item(tag, value) + rest;
    if value.len() <= MAX_FRAGMENT_LEN {
        assert(bytes[0] == tag && bytes[1] == value.len());
        assert(bytes.subrange(2, 2 + bytes[1]) =~= value);
        assert(bytes.subrange(2 + bytes[1], bytes.len() as int) =~= rest);
    } else {
        let first = value.subrange(0, MAX_FRAGMENT_LEN as int);
        let more = value.subrange(MAX_FRAGMENT_LEN as int, value.len() as int);
        assert(bytes[0] == tag && bytes[1] == 255);
        assert(bytes.subrange(2, 2 + bytes[1]) =~= first);
        assert(bytes.subrange(2 + bytes[1], bytes.len() as int) =~= encode_item(tag, more) + rest);
        lemma_decode_continued(tag, more, rest, items, first);
        assert(first + more =~= value);
    }
}

/// Reading the bytes of separable items after others adds them all.
pub proof fn lemma_decode_encode_after(
    items: Seq<(u8, Seq<u8>)>,
    read: Seq<(u8, Seq<u8>)>,
    continues: bool,
)
    requires
        separable(items),
        items.len() > 0 ==> !(continues && read.len() > 0 && read.last().0 == items[0].0),
    ensures
        decode_after(encode(items), read, continues) == Some(read + items),
    decreases items.len(),
{
    if items.len() == 0 {
        assert(read + items =~= read);
    } else {
        let rest = items.drop_first();
        lemma_decode_item(items[0].0, items[0].1, encode(rest), read, continues);
        assert(separable(rest)) by {
            assert forall|i: int|
                0 <= i < rest.len() - 1 && (#[trigger] rest[i]).0 == rest[i + 1].0 implies !ends_full(
                rest[i].1,
            ) by {
                assert(rest[i] == items[i + 1]);
                assert(rest[i + 1] == items[i + 2]);
            }
        }
        if rest.len() > 0 {
            assert(rest[0] == items[1]);
            assert(read.push(items[0]).last() == items[0]);
        }
        lemma_decode_encode_after(rest, read.push(items[0]), ends_full(items[0].1));
        assert(read.push(items[0]) + rest =~= read + items);
    }
}

/// Writing separable items and reading them back gives the items.
pub proof fn lemma_decode_encode(items: Seq<(u8, Seq<u8>)>)
    requires
        separable(items),
    ensures
        decode(encode(items)) == Some(items),
{
    lemma_decode_encode_after(items, Seq::empty(), false);
    assert(Seq::<(u8, Seq<u8>)>::empty() + items =~= items);
}

/// Writes the fragments of one item at the end of the bytes.
pub fn write_item(out: &mut Vec<u8>, tag: u8, value: &Vec<u8>)
    ensures
        final(out)@ == old(out)@ + encode_item(tag, value@),
{
    let len: usize = value.len();
    let mut offset: usize = 0;
    assert(value@.subrange(0, len as int) =~= value@);
    while len - offset > MAX_FRAGMENT_LEN
        invariant
            0 <= offset <= len,
            len == value@.len(),
            out@ + encode_item(tag, value@.subrange(offset as int, len as int)) == old(out)@
                + encode_item(tag, value@),
        decreases len - offset,
    {
        let ghost rest = value@.subrange(offset as int, len as int);
        let ghost before = out@;
        out.push(tag);
        out.push(255);
        let mut i: usize = 0;
        while i < MAX_FRAGMENT_LEN
            invariant
                0 <= i <= MAX_FRAGMENT_LEN,
                offset + MAX_FRAGMENT_LEN < len,
                len == value@.len(),
                out@ == before + seq![tag, 255u8] + value@.subrange(
                    offset as int,
                    offset + i as int,
                ),
            decreases MAX_FRAGMENT_LEN - i,
        {
            out.push(value[offset + i]);
            assert(out@ =~= before + seq![tag, 255u8] + value@.subrange(
                offset as int,
                offset + i + 1,
            ));
            i += 1;
        }
        proof {
            assert(rest.subrange(0, MAX_FRAGMENT_LEN as int) =~= value@.subrange(
                offset as int,
                offset + MAX_FRAGMENT_LEN,
            ));
            assert(rest.subrange(MAX_FRAGMENT_LEN as int, rest.len() as int) =~= value@.subrange(
                offset + MAX_FRAGMENT_LEN,
                len as int,
            ));
            assert(out@ + encode_item(
                tag,
                value@.subrange(offset + MAX_FRAGMENT_LEN, len as int),
            ) =~= before + encode_item(tag, rest));
        }
        offset += MAX_FRAGMENT_LEN;
    }
    let ghost rest = value@.subrange(offset as int, len as int);
    let ghost before = out@;
    out.push(tag);
    out.push((len - offset) as u8);
    let mut i: usize = offset;
    while i < len
        invariant
            offset <= i <= len,
            len == value@.len(),
            out@ == before + seq![tag, (len - offset) as u8] + value@.subrange(
                offset as int,
                i as int,
            ),
        decreases len - i,
    {
        out.push(value[i]);
        assert(out@ =~= before + seq![tag, (len - offset) as u8] + value@.subrange(
            offset as int,
            i + 1,
        ));
        i += 1;
    }
    assert(out@ =~= before + encode_item(tag, rest));
}

/// Writes a list of items.
pub fn encode_items(items: &Vec<(u8, Vec<u8>)>) -> (bytes: Vec<u8>)
    ensures
        bytes@ == encode(items_view(items@)),
{
    let ghost model = items_view(items@);
    let mut bytes: Vec<u8> = Vec::new();
    let mut i: usize = 0;
    assert(model.subrange(0, model.len() as int) =~= model);
    assert(bytes@ + encode(model) =~= encode(model));
    while i < items.len()
        invariant
            0 <= i <= items@.len(),
            model == items_view(items@),
            bytes@ + encode(model.subrange(i as int, model.len() as int)) == encode(model),
        decreases items@.len() - i,
    {
        let ghost rest = model.subrange(i as int, model.len() as int);
        let ghost before = bytes@;
        assert(rest[0] == (items@[i as int].0, items@[i as int].1@));
        assert(rest.drop_first() =~= model.subrange(i + 1, model.len() as int));
        write_item(&mut bytes, items[i].0, &items[i].1);
        assert(bytes@ + encode(rest.drop_first()) =~= before + encode(rest));
        i += 1;
    }
    assert(bytes@ + encode(model.subrange(i as int, model.len() as int)) =~= bytes@);
    bytes
}

/// Reads the items that the bytes hold. `None` where a fragment is cut
/// short.
pub fn decode_items(bytes: &[u8]) -> (items: Option<Vec<(u8, Vec<u8>)>>)
    ensures
        match items {
            Some(items) => decode(bytes@) == Some(items_view(items@)),
            None => decode(bytes@) is None,
        },
{
    let len: usize = bytes.len();
    let mut items: Vec<(u8, Vec<u8>)> = Vec::new();
    let mut continues = false;
    let mut pos: usize = 0;
    assert(bytes@.subrange(0, len as int) =~= bytes@);
    assert(items_view(items@) =~= Seq::empty());
    while pos < len
        invariant
            0 <= pos <= len,
            len == bytes@.len(),
            decode(bytes@) == decode_after(
                bytes@.subrange(pos as int, len as int),
                items_view(items@),
                continues,
            ),
        decreases len - pos,
    {
        let ghost rest = bytes@.subrange(pos as int, len as int);
        let ghost read = items_view(items@);
        if len - pos < 2 {
            return None;
        }
        let tag = bytes[pos];
        let n: usize = bytes[pos + 1] as usize;
        assert(rest[0] == tag && rest[1] == n);
        if len - pos - 2 < n {
            return None;
        }
        let mut fragment = crate::bytes::copy_range(bytes, pos + 2, pos + 2 + n);
        assert(fragment@ =~= rest.subrange(2, 2 + n));
        assert(rest.subrange(2 + n, rest.len() as int) =~= bytes@.subrange(
            pos + 2 + n,
            len as int,
        ));
        let count = items.len();
        if continues && count > 0 && items[count - 1].0 == tag {
            let ghost begun = items@[count - 1].1@;
            let ghost added = fragment@;
            let last = &mut items[count - 1];
            last.1.append(&mut fragment);
            assert(items_view(items@) =~= with_fragment(read, continues, tag, added));
        } else {
            let ghost added = fragment@;
            items.push((tag, fragment));
            assert(items_view(items@) =~= with_fragment(read, continues, tag, added));
        }
        continues = n == 255;
        pos = pos + 2 + n;
    }
    Some(items)
}

/// The value of the first item with the given tag.
pub open spec fn value_of(items: Seq<(u8, Seq<u8>)>, tag: u8) -> Option<Seq<u8>>
    decreases items.len(),
{
    if items.len() == 0 {
        None
    } else if items[0].0 == tag {
        Some(items[0].1)
    } else {
        value_of(items.drop_first(), tag)
    }
}

/// The value of the first item with the given tag.
pub fn find(items: &Vec<(u8, Vec<u8>)>, tag: u8) -> (value: Option<&Vec<u8>>)
    ensures
        match value {
            Some(v) => value_of(items_view(items@), tag) == Some(v@),
            None => value_of(items_view(items@), tag) is None,
        },
{
    let ghost model = items_view(items@);
    let mut i: usize = 0;
    assert(model.subrange(0, model.len() as int) =~= model);
    while i < items.len()
        invariant
            0 <= i <= items@.len(),
            model == items_view(items@),
            value_of(model, tag) == value_of(model.subrange(i as int, model.len() as int), tag),
        decreases items@.len() - i,
    {
        let ghost rest = model.subrange(i as int, model.len() as int);
        assert(rest[0] == (items@[i as int].0, items@[i as int].1@));
        assert(rest.drop_first() =~= model.subrange(i + 1, model.len() as int));
        if items[i].0 == tag {
            return Some(&items[i].1);
        }
        i += 1;
    }
    None
}

} // verus!
