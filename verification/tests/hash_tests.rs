use code_context_graph::hash;
use code_context_graph::hash::{digest_of, to_hex};

#[test]
fn hex_encoding_is_lowercase_two_digits_per_byte() {
    assert_eq!(to_hex(&[0x00, 0x0f, 0xa5, 0xff]), "000fa5ff");
    assert_eq!(to_hex(&[]), "");
}

#[test]
fn digest_of_empty_input_is_the_known_blake3_value() {
    assert_eq!(
        digest_of(b""),
        "af1349b9f5f9a1a6a0404dea36dcc9499bcb25c9adc112b7cc9a93cae41f3262"
    );
}

#[test]
fn hash_from_string_matches_hash_of_bytes() {
    let a = hash::Hash::from_string("hello world");
    let b = hash::Hash::new(b"hello world");
    assert_eq!(a, b);
    assert_eq!(a.as_str().len(), 64);
    assert_eq!(a.short(), &a.as_str()[..8]);
    assert!(a.same(&b));
    assert!(!a.same(&hash::Hash::new(b"hello worle")));
}

#[test]
fn wrapper_digest_differs_from_its_input() {
    // The digest of "abc" from the Blake3 reference vectors.
    assert_eq!(
        digest_of(b"abc"),
        "6437b3ac38465133ffb63b75273a8db548c558465d79db03fd359c6cd5bd9d85"
    );
}

#[test]
fn hash_from_str_and_string_hash_the_text() {
    let a: hash::Hash = "hello".into();
    let b: hash::Hash = String::from("hello").into();
    assert_eq!(a, hash::Hash::new(b"hello"));
    assert_eq!(b, a);
    assert_eq!(a.clone(), a);
    assert_eq!(a.short().len(), 8);
}
