use colink::notes::api::sha256_hex;
use colink::runtime::utils::{
    checksum_with_prefix, split_checksum, FileChecksumAlgorithm, FileChecksumHasher,
    FileChecksumVerifier,
};
use sha2::{Digest, Sha256};

#[test]
fn verifies_prefixed_sha256_checksum_incrementally() {
    let mut hasher = Sha256::new();
    hasher.update(b"hello ");
    hasher.update(b"world");
    let checksum = format!("sha256:{:x}", hasher.finalize());

    let mut verifier = FileChecksumVerifier::new(&checksum).expect("verifier");
    verifier.update(b"hello ");
    verifier.update(b"world");

    assert!(verifier.verify());
}

#[test]
fn rejects_checksum_without_supported_algorithm_prefix() {
    assert!(split_checksum("abc123").is_err());
    assert!(FileChecksumVerifier::new("md5:abc123").is_err());
}

#[test]
fn verifies_none_checksum_without_hashing_content() {
    let mut verifier = FileChecksumVerifier::new("none:none").expect("verifier");
    verifier.update(b"payload");

    assert!(verifier.verify());
}

#[test]
fn rejects_malformed_none_checksum() {
    assert!(FileChecksumVerifier::new("none:abc123").is_err());
}

#[test]
fn blake3_checksum_with_prefix_verifies() {
    let digest = blake3::hash(b"payload").to_hex().to_string();
    let checksum = checksum_with_prefix(FileChecksumAlgorithm::Blake3, &digest);
    assert!(checksum.starts_with("blake3:"));
    let mut verifier = FileChecksumVerifier::new(&checksum).expect("verifier");
    verifier.update(b"payload");
    assert!(verifier.verify());
}

#[test]
fn verifier_rejects_wrong_content_and_ignores_digest_case() {
    let digest = sha256_hex(b"abc").to_uppercase();
    let mut verifier = FileChecksumVerifier::new(&format!("SHA256:{digest}")).expect("verifier");
    verifier.update(b"abd");
    assert!(!verifier.verify());
    let mut verifier = FileChecksumVerifier::new(&format!("sha256:{digest}")).expect("verifier");
    verifier.update(b"abc");
    assert!(verifier.verify());
}

#[test]
fn sha256_hex_matches_known_digest() {
    assert_eq!(
        sha256_hex(b"abc"),
        "ba7816bf8f01cfea414140de5dae2223b00361a396177a9cb410ff61f20015ad"
    );
}

#[test]
fn split_checksum_reports_each_error() {
    assert_eq!(
        split_checksum("abc123").unwrap_err().message,
        "checksum must include an algorithm prefix"
    );
    assert_eq!(
        split_checksum("md5:x").unwrap_err().message,
        "unsupported checksum algorithm: md5"
    );
    let (algorithm, digest) = split_checksum("Blake3:a:b").expect("split");
    assert_eq!(algorithm, FileChecksumAlgorithm::Blake3);
    assert_eq!(digest, "a:b");
    assert_eq!(FileChecksumAlgorithm::parse("NONE").unwrap(), FileChecksumAlgorithm::Disabled);
    assert_eq!(FileChecksumAlgorithm::Sha256.as_str(), "sha256");
}

#[test]
fn hasher_checksums_are_prefixed_digests_that_verify() {
    let mut hasher = FileChecksumHasher::new(FileChecksumAlgorithm::Blake3);
    hasher.update(b"pay");
    hasher.update(b"load");
    let checksum = hasher.checksum();
    assert_eq!(checksum, format!("blake3:{}", blake3::hash(b"payload").to_hex()));
    let mut verifier = FileChecksumVerifier::new(&checksum).expect("verifier");
    verifier.update(b"payload");
    assert!(verifier.verify());
    let mut none = FileChecksumHasher::new(FileChecksumAlgorithm::Disabled);
    none.update(b"payload");
    assert_eq!(none.checksum(), "none:none");
}
