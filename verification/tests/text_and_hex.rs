use gadget_shell::hex::{hex_string, slice_32_to_sha_hex_string};
use gadget_shell::text::{bytes_equal, contains_subslice, to_lowercase_bytes, trim_bytes};
use gadget_shell::workload::{
    repository_source, ArtifactDescriptor, DeclaredWorkload, RepoSource, SourceFetcher,
};

#[test]
fn hex_of_a_32_byte_digest_has_64_lowercase_digits() {
    assert_eq!(slice_32_to_sha_hex_string([0u8; 32]), "0".repeat(64));
    assert_eq!(slice_32_to_sha_hex_string([0xabu8; 32]), "ab".repeat(32));
    let mut counted = [0u8; 32];
    counted[0] = 0x01;
    counted[1] = 0x23;
    counted[31] = 0xef;
    let hex = slice_32_to_sha_hex_string(counted);
    assert_eq!(&hex[0..4], "0123");
    assert_eq!(&hex[62..64], "ef");
    assert_eq!(hex.len(), 64);
}

#[test]
fn hex_encodes_nibbles_most_significant_first() {
    assert_eq!(hex_string(&[0xbe, 0xef]), "beef");
    assert_eq!(hex_string(&[0x0f, 0xf0]), "0ff0");
    assert_eq!(hex_string(&[]), "");
}

#[test]
fn byte_equality_is_exact() {
    assert!(bytes_equal(b"abc", b"abc"));
    assert!(!bytes_equal(b"abc", b"abd"));
    assert!(!bytes_equal(b"abc", b"ab"));
    assert!(bytes_equal(b"", b""));
}

#[test]
fn substring_search_finds_needles_anywhere() {
    assert!(contains_subslice(b"linux-gnu", b"linux"));
    assert!(contains_subslice(b"linux-gnu", b"gnu"));
    assert!(contains_subslice(b"linux-gnu", b"x-g"));
    assert!(contains_subslice(b"linux", b""));
    assert!(!contains_subslice(b"linux", b"linux-gnu"));
    assert!(!contains_subslice(b"darwin", b"macos"));
}

#[test]
fn case_folding_lowers_ascii_only() {
    assert_eq!(to_lowercase_bytes(b"X86_64"), b"x86_64".to_vec());
    assert_eq!(to_lowercase_bytes(b"Linux"), b"linux".to_vec());
    assert_eq!(to_lowercase_bytes(b"already lower 123"), b"already lower 123".to_vec());
}

#[test]
fn trimming_strips_edge_whitespace_only() {
    assert_eq!(trim_bytes(b"  abc\t\n"), b"abc".to_vec());
    assert_eq!(trim_bytes(b"a b"), b"a b".to_vec());
    assert_eq!(trim_bytes(b" \t\r\n"), Vec::<u8>::new());
    assert_eq!(trim_bytes(b""), Vec::<u8>::new());
}

fn repo_source() -> RepoSource {
    RepoSource {
        owner: String::from("acme"),
        repo: String::from("widgets"),
        binaries: vec![ArtifactDescriptor {
            os: b"linux".to_vec(),
            arch: b"x86_64".to_vec(),
            sha256: [0u8; 32],
            rev: String::from("v1"),
            package: String::from("widget"),
        }],
    }
}

#[test]
fn native_workload_with_repository_source_is_handled() {
    let w = DeclaredWorkload::Native {
        sources: vec![SourceFetcher::RemoteRepository(repo_source())],
    };
    let src = repository_source(&w);
    assert!(src.is_some());
    assert_eq!(src.unwrap().owner, "acme");
}

#[test]
fn unsupported_first_source_is_skipped() {
    let w = DeclaredWorkload::Native { sources: vec![SourceFetcher::Unsupported] };
    assert!(repository_source(&w).is_none());
}

#[test]
fn sourceless_and_non_native_workloads_are_skipped() {
    let w = DeclaredWorkload::Native { sources: Vec::new() };
    assert!(repository_source(&w).is_none());
    assert!(repository_source(&DeclaredWorkload::Other).is_none());
}
