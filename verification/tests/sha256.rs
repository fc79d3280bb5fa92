use prelearning::sha256::{hex_digest, sha256_digest};

#[test]
fn digest_of_abc() {
    assert_eq!(
        sha256_digest(b"abc"),
        "ba7816bf8f01cfea414140de5dae2223b00361a396177a9cb410ff61f20015ad"
    );
}

#[test]
fn digest_of_nothing() {
    assert_eq!(
        sha256_digest(b""),
        "e3b0c44298fc1c149afbf4c8996fb92427ae41e4649b934ca495991b7852b855"
    );
}

#[test]
fn hex_is_lowercase_two_digits_per_byte() {
    assert_eq!(hex_digest(&[0x00, 0xff, 0x1a, 0x09]), "00ff1a09");
    assert_eq!(hex_digest(&[]), "");
}
