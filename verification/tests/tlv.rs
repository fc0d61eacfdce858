use hap::tlv::{decode_items, encode_items, find, write_item};

fn value(len: usize, seed: u8) -> Vec<u8> {
    (0..len).map(|i| (i as u8).wrapping_mul(7).wrapping_add(seed)).collect()
}

#[test]
fn encode_writes_tag_length_value() {
    assert_eq!(encode_items(&vec![]), Vec::<u8>::new());
    assert_eq!(encode_items(&vec![(6, vec![1])]), vec![6, 1, 1]);
    assert_eq!(encode_items(&vec![(6, vec![1]), (0, vec![0])]), vec![6, 1, 1, 0, 1, 0]);
    assert_eq!(encode_items(&vec![(0xff, vec![])]), vec![0xff, 0]);
}

#[test]
fn encode_fragments_long_values() {
    let long = value(600, 3);
    let bytes = encode_items(&vec![(3, long.clone())]);
    assert_eq!(bytes.len(), 600 + 3 * 2);
    assert_eq!(&bytes[..2], &[3, 255]);
    assert_eq!(&bytes[2..257], &long[..255]);
    assert_eq!(&bytes[257..259], &[3, 255]);
    assert_eq!(&bytes[259..514], &long[255..510]);
    assert_eq!(&bytes[514..516], &[3, 90]);
    assert_eq!(&bytes[516..], &long[510..]);
    let exact = value(255, 1);
    let bytes = encode_items(&vec![(5, exact.clone())]);
    assert_eq!(bytes.len(), 257);
    assert_eq!(&bytes[..2], &[5, 255]);
    let double = value(510, 1);
    assert_eq!(encode_items(&vec![(5, double)]).len(), 514);
}

#[test]
fn write_item_appends() {
    let mut out = vec![9u8];
    write_item(&mut out, 1, &vec![7, 8]);
    assert_eq!(out, vec![9, 1, 2, 7, 8]);
}

#[test]
fn decode_reads_items_and_joins_fragments() {
    assert_eq!(decode_items(&[]), Some(vec![]));
    assert_eq!(decode_items(&[6, 1, 1, 0, 1, 0]), Some(vec![(6, vec![1]), (0, vec![0])]));
    assert_eq!(decode_items(&[6, 0]), Some(vec![(6, vec![])]));
    assert_eq!(decode_items(&[6, 1, 1, 6, 1, 2]), Some(vec![(6, vec![1]), (6, vec![2])]));
    let long = value(600, 3);
    let bytes = encode_items(&vec![(3, long.clone()), (6, vec![2])]);
    assert_eq!(decode_items(&bytes), Some(vec![(3, long), (6, vec![2])]));
}

#[test]
fn decode_refuses_cut_fragments() {
    assert_eq!(decode_items(&[6]), None);
    assert_eq!(decode_items(&[6, 1]), None);
    assert_eq!(decode_items(&[6, 2, 1]), None);
    assert_eq!(decode_items(&[6, 1, 1, 0]), None);
    assert_eq!(decode_items(&[6, 1, 1, 0, 3, 1, 2]), None);
}

#[test]
fn round_trip_gives_the_items_back() {
    let lists: Vec<Vec<(u8, Vec<u8>)>> = vec![
        vec![],
        vec![(6, vec![1]), (3, value(384, 0)), (2, value(16, 9))],
        vec![(1, value(255, 0)), (2, value(255, 1)), (1, value(255, 2))],
        vec![(1, value(255, 0)), (0xff, vec![]), (1, value(3, 2))],
        vec![(1, value(254, 0)), (1, value(256, 1)), (1, vec![]), (1, vec![]), (1, value(1, 0))],
        vec![(5, value(1000, 4)), (6, value(510, 4)), (5, value(511, 4)), (5, value(2, 4))],
        vec![(1, vec![]), (1, value(255, 0))],
    ];
    for items in lists {
        assert_eq!(decode_items(&encode_items(&items)), Some(items));
    }
}

#[test]
fn full_fragments_of_the_same_tag_run_together() {
    let items = vec![(1, value(255, 0)), (1, value(3, 2))];
    let mut joined = value(255, 0);
    joined.extend(value(3, 2));
    assert_eq!(decode_items(&encode_items(&items)), Some(vec![(1, joined)]));
}

#[test]
fn find_gives_the_first_item_of_a_tag() {
    let items = vec![(6, vec![1]), (3, vec![7, 8]), (6, vec![2])];
    assert_eq!(find(&items, 6), Some(&vec![1]));
    assert_eq!(find(&items, 3), Some(&vec![7, 8]));
    assert_eq!(find(&items, 4), None);
}
