use gadget_shell::fetcher::{
    artifact_cache_path, check_download, check_fetched, download_url, hashes_equivalent,
    needs_fetch, FetchOutcome,
};
use gadget_shell::workload::ArtifactDescriptor;

// SHA-256 of the three bytes "abc".
const ABC_DIGEST: [u8; 32] = [
    0xba, 0x78, 0x16, 0xbf, 0x8f, 0x01, 0xcf, 0xea, 0x41, 0x41, 0x40, 0xde, 0x5d, 0xae, 0x22,
    0x23, 0xb0, 0x03, 0x61, 0xa3, 0x96, 0x17, 0x7a, 0x9c, 0xb4, 0x10, 0xff, 0x61, 0xf2, 0x00,
    0x15, 0xad,
];

fn descriptor_with_hash(hash: [u8; 32]) -> ArtifactDescriptor {
    ArtifactDescriptor {
        os: b"linux".to_vec(),
        arch: b"x86_64".to_vec(),
        sha256: hash,
        rev: String::from("v1"),
        package: String::from("pkg"),
    }
}

#[test]
fn matching_payload_is_verified() {
    let d = descriptor_with_hash(ABC_DIGEST);
    let outcome = check_fetched(&d, b"abc");
    assert!(matches!(outcome, FetchOutcome::Verified));
    assert!(outcome.approves_execution());
}

#[test]
fn mismatched_payload_is_refused_with_both_hashes() {
    let d = descriptor_with_hash([0u8; 32]);
    let outcome = check_fetched(&d, b"abc");
    assert!(!outcome.approves_execution());
    match outcome {
        FetchOutcome::HashMismatch { expected, retrieved } => {
            assert_eq!(expected, "0".repeat(64));
            assert_eq!(
                retrieved,
                "ba7816bf8f01cfea414140de5dae2223b00361a396177a9cb410ff61f20015ad"
            );
        }
        _ => panic!("a wrong hash must report the mismatch"),
    }
}

#[test]
fn verified_local_copy_needs_no_fetch() {
    let d = descriptor_with_hash(ABC_DIGEST);
    // First pass: nothing cached, a fetch is needed.
    assert!(needs_fetch(&d, None));
    // Second pass over the persisted, verified bytes: no network access.
    assert!(!needs_fetch(&d, Some(b"abc")));
}

#[test]
fn corrupt_local_copy_forces_a_fetch() {
    let d = descriptor_with_hash(ABC_DIGEST);
    assert!(needs_fetch(&d, Some(b"abx")));
    assert!(needs_fetch(&d, Some(b"")));
}

#[test]
fn failed_download_is_a_fetch_error_with_its_reason() {
    let d = descriptor_with_hash(ABC_DIGEST);
    let outcome = check_download(&d, Err(b"connection timed out".to_vec()));
    assert!(!outcome.approves_execution());
    match outcome {
        FetchOutcome::FetchError { reason } => assert_eq!(reason, b"connection timed out".to_vec()),
        _ => panic!("a transport failure must be reported as a fetch error"),
    }
}

#[test]
fn successful_download_stands_or_falls_by_its_hash() {
    let d = descriptor_with_hash(ABC_DIGEST);
    assert!(check_download(&d, Ok(b"abc".to_vec())).approves_execution());
    assert!(!check_download(&d, Ok(b"abd".to_vec())).approves_execution());
}

#[test]
fn hash_strings_compare_after_trim_and_case_fold() {
    assert!(hashes_equivalent(b"  AB12\n", b"ab12"));
    assert!(hashes_equivalent(b"ab12", b"ab12"));
    assert!(!hashes_equivalent(b"ab12", b"ab13"));
    assert!(!hashes_equivalent(b"ab12", b"ab1"));
}

#[test]
fn download_url_is_deterministic_in_its_fields() {
    let url = download_url("https://github.com", "acme", "widgets", "v1.2.3", "widget-linux");
    assert_eq!(
        url,
        "https://github.com/acme/widgets/releases/download/v1.2.3/widget-linux"
    );
}

#[test]
fn cache_path_appends_exe_only_on_windows() {
    assert_eq!(artifact_cache_path("/srv/node", "v7", false), "/srv/node/protocol-v7");
    assert_eq!(artifact_cache_path("/srv/node", "v7", true), "/srv/node/protocol-v7.exe");
}
