use appiman::checksum::compute_checksum;

#[test]
fn checksum_is_lowercase_hex_sha256() {
    let digest = compute_checksum(b"hello world");
    assert_eq!(
        digest,
        "b94d27b9934d3e08a52e52d7da7dabfac484efe37a5380ee9088f7ace2efcde9"
    );
}

#[test]
fn checksum_matches_the_reference_implementation() {
    let data = b"arbitrary bundle bytes";
    let expected = hex::encode(<sha2::Sha256 as sha2::Digest>::digest(data));
    assert_eq!(compute_checksum(data), expected);
}

#[test]
fn empty_input_still_hashes() {
    let digest = compute_checksum(b"");
    assert_eq!(
        digest,
        "e3b0c44298fc1c149afbf4c8996fb92427ae41e4649b934ca495991b7852b855"
    );
}
