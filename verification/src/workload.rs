//! The data model for remotely declared workloads: artifact descriptors,
//! repository sources, and the stable identity used for de-duplication.

use vstd::prelude::*;

verus! {

/// One candidate binary for a declared workload. `os` and `arch` are the
/// published platform names as byte strings; `sha256` is the declared content
/// digest of the artifact; `rev` and `package` locate the artifact within its
/// repository release.
pub struct ArtifactDescriptor {
    pub os: Vec<u8>,
    pub arch: Vec<u8>,
    pub sha256: [u8; 32],
    pub rev: String,
    pub package: String,
}

/// A remote artifact repository publishing release binaries for a workload.
pub struct RepoSource {
    pub owner: String,
    pub repo: String,
    pub binaries: Vec<ArtifactDescriptor>,
}

/// One way to obtain a workload's executable. Only the remote artifact
/// repository kind is handled here; anything else is skipped with a warning.
pub enum SourceFetcher {
    RemoteRepository(RepoSource),
    Unsupported,
}

/// An authority-published workload description: either a native executable
/// with its ordered source fetchers, or some other execution mode that this
/// launcher does not run.
pub enum DeclaredWorkload {
    Native { sources: Vec<SourceFetcher> },
    Other,
}

/// The local platform the launcher runs on, as byte strings.
pub struct Platform {
    pub os: Vec<u8>,
    pub arch: Vec<u8>,
}

/// A stable key identifying a declared workload for de-duplication.
pub struct WorkloadIdentity {
    pub key: Vec<u8>,
}

impl View for WorkloadIdentity {
    type V = Seq<u8>;

    open spec fn view(&self) -> Seq<u8> {
        self.key@
    }
}

/// The repository source a launch pass uses for a declared workload: the
/// first source fetcher, when the workload is native and that fetcher is a
/// remote repository; nothing otherwise.
pub open spec fn spec_repository_source(w: DeclaredWorkload) -> Option<RepoSource> {
    match w {
        DeclaredWorkload::Native { sources } => {
            if sources.len() > 0 {
                match sources[0] {
                    SourceFetcher::RemoteRepository(src) => Some(src),
                    SourceFetcher::Unsupported => None,
                }
            } else {
                None
            }
        },
        DeclaredWorkload::Other => None,
    }
}

/// Picks the repository source that a launch pass for `w` should use, if any.
pub fn repository_source(w: &DeclaredWorkload) -> (r: Option<&RepoSource>)
    ensures
        match r {
            Some(src) => spec_repository_source(*w) == Some(*src),
            None => spec_repository_source(*w) is None,
        },
{
    match w {
        DeclaredWorkload::Native { sources } => {
            if sources.len() > 0 {
                match &sources[0] {
                    SourceFetcher::RemoteRepository(src) => Some(src),
                    SourceFetcher::Unsupported => None,
                }
            } else {
                None
            }
        },
        DeclaredWorkload::Other => None,
    }
}

} // verus!
