//! A verified core for a node that runs remotely declared workloads.
//!
//! A remote authority publishes workload descriptions; this library resolves
//! each description to a platform-appropriate artifact, decides when a fetch
//! is needed, gates execution on content-hash verification, keeps at most one
//! running instance per workload identity, matches incoming job events to the
//! handler bound to them, and classifies result-submission outcomes.

pub mod client;
pub mod dispatcher;
pub mod fetcher;
pub mod hex;
pub mod registry;
pub mod resolver;
pub mod submitter;
pub mod text;
pub mod workload;

pub use client::{create_client, JobsClient};
pub use dispatcher::{JobEvent, JobHandler, Logger, TangleEventsWatcher};
pub use fetcher::{
    artifact_cache_path, check_download, check_fetched, download_url, hashes_equivalent,
    needs_fetch, FetchOutcome,
};
pub use hex::{hex_string, slice_32_to_sha_hex_string};
pub use registry::{ActiveProcessEntry, RegisterOutcome, WorkloadRegistry};
pub use resolver::resolve;
pub use submitter::{classify_submission, JobResult, PhaseResultExt, SubmissionOutcome};
pub use text::bytes_equal;
pub use workload::{
    repository_source, ArtifactDescriptor, DeclaredWorkload, Platform, RepoSource, SourceFetcher,
    WorkloadIdentity,
};
