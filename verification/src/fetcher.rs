//! Integrity-verified fetching of a resolved artifact.
//!
//! The fetcher decides when a download is needed (a cached file whose content
//! hash equals the declared hash short-circuits the network), constructs the
//! release URL, and gates execution on the content hash of whatever bytes
//! were obtained: only a payload whose digest equals the declared digest is
//! approved for execution. The hash comparison follows the published hash
//! format: lower-case hex strings, compared case-insensitively after trimming
//! whitespace.

use vstd::prelude::*;
use vstd::string::StringExecFns;
use sha2::Digest;
use crate::hex::{
    bytes_to_hex, hex_string, lemma_hex_canonical, lemma_hex_injective, spec_hex, spec_hex_chars,
};
use crate::text::{bytes_equal, fold_lower, to_lowercase_bytes, trim_bytes, trimmed};
use crate::workload::ArtifactDescriptor;

verus! {

/// The SHA-256 digest of a byte string, as the `sha2` crate computes it.
pub uninterp spec fn sha256_of(data: Seq<u8>) -> Seq<u8>;

/// Relies on `sha2::Sha256::digest`: a one-shot SHA-256 whose 32-byte result
/// is a function of the input bytes alone.
#[verifier::external_body]
fn sha256_digest(data: &[u8]) -> (r: Vec<u8>)
    ensures
        r@ == sha256_of(data@),
        r@.len() == 32,
{
    sha2::Sha256::digest(data).to_vec()
}

/// Two content-hash strings denote the same hash: equal after trimming
/// whitespace and folding ASCII case.
pub fn hashes_equivalent(a: &[u8], b: &[u8]) -> (r: bool)
    ensures
        r == (fold_lower(trimmed(a@)) == fold_lower(trimmed(b@))),
{
    let ta = trim_bytes(a);
    let tb = trim_bytes(b);
    let fa = to_lowercase_bytes(ta.as_slice());
    let fb = to_lowercase_bytes(tb.as_slice());
    bytes_equal(fa.as_slice(), fb.as_slice())
}

/// The fetched payload's hash agrees with the declared hash, under the
/// published comparison rule for hash strings.
pub open spec fn payload_hash_ok(declared: Seq<u8>, payload: Seq<u8>) -> bool {
    fold_lower(trimmed(spec_hex(sha256_of(payload)))) == fold_lower(trimmed(spec_hex(declared)))
}

/// The lenient string comparison decides exactly digest equality, because a
/// hex encoding carries no whitespace and no upper-case letters.
pub proof fn lemma_hash_ok_is_digest_equality(declared: Seq<u8>, payload: Seq<u8>)
    ensures
        payload_hash_ok(declared, payload) <==> sha256_of(payload) == declared,
{
    lemma_hex_canonical(sha256_of(payload));
    lemma_hex_canonical(declared);
    if payload_hash_ok(declared, payload) {
        lemma_hex_injective(sha256_of(payload), declared);
    }
}

/// The verdict on obtaining a verified local artifact. A mismatch carries
/// both hashes in their hex string form for diagnostics; only a verified
/// payload may be executed. A transport failure is a hard error for this
/// workload alone.
pub enum FetchOutcome {
    Verified,
    HashMismatch { expected: String, retrieved: String },
    FetchError { reason: Vec<u8> },
}

impl FetchOutcome {
    /// Only a verified payload may be persisted as executable.
    pub fn approves_execution(&self) -> (r: bool)
        ensures
            r == (*self is Verified),
    {
        match self {
            FetchOutcome::Verified => true,
            FetchOutcome::HashMismatch { .. } => false,
            FetchOutcome::FetchError { .. } => false,
        }
    }
}

/// Checks a fetched payload against the descriptor's declared content hash.
pub fn check_fetched(descriptor: &ArtifactDescriptor, payload: &[u8]) -> (r: FetchOutcome)
    ensures
        r is Verified <==> payload_hash_ok(descriptor.sha256@, payload@),
        r matches FetchOutcome::HashMismatch { expected, retrieved } ==> expected@
            == spec_hex_chars(descriptor.sha256@) && retrieved@ == spec_hex_chars(
            sha256_of(payload@),
        ),
        !(r is FetchError),
{
    let digest = sha256_digest(payload);
    let expected_hex = bytes_to_hex(descriptor.sha256.as_slice());
    let retrieved_hex = bytes_to_hex(digest.as_slice());
    if hashes_equivalent(retrieved_hex.as_slice(), expected_hex.as_slice()) {
        FetchOutcome::Verified
    } else {
        FetchOutcome::HashMismatch {
            expected: hex_string(descriptor.sha256.as_slice()),
            retrieved: hex_string(digest.as_slice()),
        }
    }
}

/// Judges the result of a download attempt: a transport failure is reported
/// as such, and fetched bytes stand or fall by their content hash.
pub fn check_download(descriptor: &ArtifactDescriptor, download: Result<Vec<u8>, Vec<u8>>) -> (r:
    FetchOutcome)
    ensures
        match download {
            Ok(payload) => (r is Verified <==> payload_hash_ok(descriptor.sha256@, payload@)) && (
            r matches FetchOutcome::HashMismatch { expected, retrieved } ==> expected@
                == spec_hex_chars(descriptor.sha256@) && retrieved@ == spec_hex_chars(
                sha256_of(payload@),
            )) && !(r is FetchError),
            Err(msg) => r == (FetchOutcome::FetchError { reason: msg }),
        },
{
    match download {
        Ok(payload) => check_fetched(descriptor, payload.as_slice()),
        Err(msg) => FetchOutcome::FetchError { reason: msg },
    }
}

/// Whether a launch pass must download the artifact: yes unless a local copy
/// exists whose content hash equals the declared hash.
pub open spec fn spec_needs_fetch(declared: Seq<u8>, local: Option<Seq<u8>>) -> bool {
    match local {
        Some(bytes) => !payload_hash_ok(declared, bytes),
        None => true,
    }
}

/// Decides whether the artifact must be downloaded, given the bytes of the
/// cached file at the destination path, if one exists.
pub fn needs_fetch(descriptor: &ArtifactDescriptor, local: Option<&[u8]>) -> (r: bool)
    ensures
        r == spec_needs_fetch(
            descriptor.sha256@,
            match local {
                Some(bytes) => Some(bytes@),
                None => None,
            },
        ),
{
    match local {
        Some(bytes) => {
            let digest = sha256_digest(bytes);
            let expected_hex = bytes_to_hex(descriptor.sha256.as_slice());
            let retrieved_hex = bytes_to_hex(digest.as_slice());
            !hashes_equivalent(retrieved_hex.as_slice(), expected_hex.as_slice())
        },
        None => true,
    }
}

/// Hash verification is idempotent: bytes that verified once verify again, so
/// a second pass over a persisted, verified artifact performs no fetch.
pub proof fn lemma_verified_local_needs_no_fetch(declared: Seq<u8>, payload: Seq<u8>)
    requires
        payload_hash_ok(declared, payload),
    ensures
        !spec_needs_fetch(declared, Some(payload)),
{
}

/// Builds the release download URL: a pure function of repository origin,
/// owner, repository, revision and package name.
pub fn download_url(origin: &str, owner: &str, repo: &str, rev: &str, package: &str) -> (r: String)
    ensures
        r@ == origin@ + "/"@ + owner@ + "/"@ + repo@ + "/releases/download/"@ + rev@ + "/"@
            + package@,
{
    let mut r = String::from_str(origin);
    r.append("/");
    r.append(owner);
    r.append("/");
    r.append(repo);
    r.append("/releases/download/");
    r.append(rev);
    r.append("/");
    r.append(package);
    r
}

/// The local cache path for a revision's artifact, under the launcher's
/// working directory, with the executable suffix on Windows.
pub fn artifact_cache_path(current_dir: &str, rev: &str, windows: bool) -> (r: String)
    ensures
        windows ==> r@ == current_dir@ + "/protocol-"@ + rev@ + ".exe"@,
        !windows ==> r@ == current_dir@ + "/protocol-"@ + rev@,
{
    let mut r = String::from_str(current_dir);
    r.append("/protocol-");
    r.append(rev);
    if windows {
        r.append(".exe");
    }
    r
}

} // verus!
