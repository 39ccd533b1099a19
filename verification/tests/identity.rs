use ciam_store::identity::{ContentHash, CONTENT_HASH_LEN};

#[test]
fn a_digest_of_32_hex_characters_is_accepted() {
    let hash = ContentHash::parse("d41d8cd98f00b204e9800998ecf8427e").unwrap();
    assert_eq!(hash.as_str(), "d41d8cd98f00b204e9800998ecf8427e");
    assert_eq!(hash.as_str().len(), CONTENT_HASH_LEN);
}

#[test]
fn upper_case_and_mixed_case_digits_are_accepted() {
    assert!(ContentHash::parse("D41D8CD98F00B204E9800998ECF8427E").is_some());
    assert!(ContentHash::parse("0123456789abcdefABCDEF0123456789").is_some());
}

#[test]
fn a_digest_of_the_wrong_length_is_refused() {
    assert_eq!(ContentHash::parse(""), None);
    assert_eq!(ContentHash::parse("d41d8cd98f00b204e9800998ecf8427"), None);
    assert_eq!(ContentHash::parse("d41d8cd98f00b204e9800998ecf8427e0"), None);
}

#[test]
fn a_digest_with_other_characters_is_refused() {
    assert_eq!(ContentHash::parse("g41d8cd98f00b204e9800998ecf8427e"), None);
    assert_eq!(ContentHash::parse("d41d8cd98f00b204e9800998ecf8427G"), None);
    assert_eq!(ContentHash::parse("d41d8cd98f00b204 9800998ecf8427e"), None);
    assert_eq!(ContentHash::parse("d41d8cd98f00b204e9800998ecf8427/"), None);
    assert_eq!(ContentHash::parse("d41d8cd98f00b204e9800998ecf8427:"), None);
    assert_eq!(ContentHash::parse("d41d8cd98f00b204e9800998ecf8427@"), None);
    assert_eq!(ContentHash::parse("d41d8cd98f00b204e9800998ecf8427`"), None);
}

#[test]
fn a_digest_with_characters_outside_ascii_is_refused() {
    // 32 characters, but not 32 hexadecimal digits.
    assert_eq!(ContentHash::parse("д41d8cd98f00b204e9800998ecf8427e"), None);
    // 32 bytes, 16 characters.
    assert_eq!(ContentHash::parse("дддддддддддддддд"), None);
}

#[test]
fn hashes_are_the_same_when_their_text_is() {
    let a = ContentHash::parse("d41d8cd98f00b204e9800998ecf8427e").unwrap();
    let b = ContentHash::parse("d41d8cd98f00b204e9800998ecf8427e").unwrap();
    let c = ContentHash::parse("d41d8cd98f00b204e9800998ecf8427f").unwrap();
    assert!(a.same_as(&b));
    assert!(!a.same_as(&c));
    assert!(a.clone().same_as(&a));
}

#[test]
fn the_hash_of_content_is_its_md5_digest_in_hexadecimal() {
    assert_eq!(ContentHash::of(b"").as_str(), "d41d8cd98f00b204e9800998ecf8427e");
    assert_eq!(ContentHash::of(b"a").as_str(), "0cc175b9c0f1b6a831c399e269772661");
    assert_eq!(ContentHash::of(b"abc").as_str(), "900150983cd24fb0d6963f7d28e17f72");
    assert_eq!(ContentHash::of(b"message digest").as_str(), "f96b697d7cb7938d525a2f31aaf161d0");
    assert_eq!(
        ContentHash::of(b"abcdefghijklmnopqrstuvwxyz").as_str(),
        "c3fcd3d76192e4007dfb496cca67e13b"
    );
    assert_eq!(
        ContentHash::of(
            b"12345678901234567890123456789012345678901234567890123456789012345678901234567890"
        )
        .as_str(),
        "57edf4a22be3c955ac49da2e2107b67a"
    );
}

#[test]
fn equal_content_has_equal_hashes_and_other_content_another() {
    let first = ContentHash::of("{\"samples\":[1,2,3]}".as_bytes());
    let second = ContentHash::of("{\"samples\":[1,2,3]}".as_bytes());
    let other = ContentHash::of("{\"samples\":[1,2,4]}".as_bytes());
    assert!(first.same_as(&second));
    assert!(!first.same_as(&other));
}

#[test]
fn a_digest_is_written_with_two_lower_case_digits_for_each_byte() {
    let digest: [u8; 16] = [
        0x00, 0x01, 0x0f, 0x10, 0x1f, 0x7f, 0x80, 0x9a, 0xab, 0xbc, 0xcd, 0xde, 0xef, 0xf0, 0xfe,
        0xff,
    ];
    let hash = ContentHash::from_digest(&digest);
    assert_eq!(hash.as_str(), "00010f101f7f809aabbccddeeff0feff");
    assert_eq!(ContentHash::parse(hash.as_str()), Some(hash));
}

#[test]
fn a_computed_hash_is_a_hash_that_parse_accepts() {
    let computed = ContentHash::of(b"content");
    let parsed = ContentHash::parse(computed.as_str()).unwrap();
    assert!(computed.same_as(&parsed));
}
