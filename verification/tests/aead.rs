use hap::aead::{open, seal};

fn hex(text: &str) -> Vec<u8> {
    let digits: Vec<u8> = text.bytes().filter(|b| b.is_ascii_hexdigit()).collect();
    digits
        .chunks(2)
        .map(|pair| u8::from_str_radix(std::str::from_utf8(pair).unwrap(), 16).unwrap())
        .collect()
}

fn key() -> [u8; 32] {
    let mut key = [0u8; 32];
    for (i, byte) in key.iter_mut().enumerate() {
        *byte = 0x80 + i as u8;
    }
    key
}

const TEXT: &[u8] = b"Ladies and Gentlemen of the class of '99: If I could offer you only one tip for the future, sunscreen would be it.";

#[test]
fn seal_agrees_with_the_published_example() {
    let nonce = hex("07 00 00 00 40 41 42 43 44 45 46 47");
    let aad = hex("50 51 52 53 c0 c1 c2 c3 c4 c5 c6 c7");
    let (ciphertext, tag) = seal(&key(), &nonce, &aad, TEXT);
    let expected = hex(
        "d3 1a 8d 34 64 8e 60 db 7b 86 af bc 53 ef 7e c2
         a4 ad ed 51 29 6e 08 fe a9 e2 b5 a7 36 ee 62 d6
         3d be a4 5e 8c a9 67 12 82 fa fb 69 da 92 72 8b
         1a 71 de 0a 9e 06 0b 29 05 d6 a5 b6 7e cd 3b 36
         92 dd bd 7f 2d 77 8b 8c 98 03 ae e3 28 09 1b 58
         fa b3 24 e4 fa d6 75 94 55 85 80 8b 48 31 d7 bc
         3f f4 de f0 8e 4b 7a 9d e5 76 d2 65 86 ce c6 4b
         61 16",
    );
    assert_eq!(ciphertext, expected);
    assert_eq!(tag, hex("1a e1 0b 59 4f 09 e2 6a 7e 90 2e cb d0 60 06 91"));
}

#[test]
fn open_gives_the_text_back() {
    let nonce = hex("07 00 00 00 40 41 42 43 44 45 46 47");
    let aad = hex("50 51 52 53 c0 c1 c2 c3 c4 c5 c6 c7");
    let (ciphertext, tag) = seal(&key(), &nonce, &aad, TEXT);
    assert_eq!(open(&key(), &nonce, &aad, &ciphertext, &tag), Some(TEXT.to_vec()));
    for len in [0usize, 1, 15, 16, 17, 63, 64, 65, 1024] {
        let text: Vec<u8> = (0..len).map(|i| i as u8).collect();
        let (ciphertext, tag) = seal(&key(), &nonce, &[], &text);
        assert_eq!(ciphertext.len(), len);
        assert_eq!(tag.len(), 16);
        assert_eq!(open(&key(), &nonce, &[], &ciphertext, &tag), Some(text));
    }
}

#[test]
fn open_refuses_what_was_changed() {
    let nonce = hex("00 00 00 00 01 00 00 00 00 00 00 00");
    let aad = [3u8, 0];
    let (ciphertext, tag) = seal(&key(), &nonce, &aad, b"abc");
    let mut other = ciphertext.clone();
    other[1] ^= 1;
    assert_eq!(open(&key(), &nonce, &aad, &other, &tag), None);
    let mut other = tag.clone();
    other[15] ^= 0x80;
    assert_eq!(open(&key(), &nonce, &aad, &ciphertext, &other), None);
    assert_eq!(open(&key(), &nonce, &aad, &ciphertext, &tag[..15]), None);
    assert_eq!(open(&key(), &nonce, &[3, 1], &ciphertext, &tag), None);
    assert_eq!(open(&key(), &nonce, &[], &ciphertext, &tag), None);
    let other_nonce = hex("00 00 00 00 02 00 00 00 00 00 00 00");
    assert_eq!(open(&key(), &other_nonce, &aad, &ciphertext, &tag), None);
    let mut other_key = key();
    other_key[0] ^= 1;
    assert_eq!(open(&other_key, &nonce, &aad, &ciphertext, &tag), None);
    assert_eq!(open(&key(), &nonce, &aad, &ciphertext, &tag), Some(b"abc".to_vec()));
}
