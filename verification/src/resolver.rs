//! Resolution of a declared workload to the one published artifact that fits
//! the local platform.
//!
//! A descriptor fits when its architecture equals the local architecture
//! (case-insensitively) and its operating-system name overlaps the local one:
//! equal, contained in it, or containing it, all case-insensitively. The
//! lenient substring rule absorbs vendor-specific OS name variants and is
//! kept deliberately, in both directions.

use vstd::prelude::*;
use crate::text::{bytes_equal, contains_seq, contains_subslice, fold_lower, to_lowercase_bytes};
use crate::workload::{ArtifactDescriptor, Platform};

verus! {

/// The descriptor's OS name overlaps the local one: after case folding, one
/// contains the other or they are equal.
pub open spec fn os_matches(descriptor_os: Seq<u8>, local_os: Seq<u8>) -> bool {
    let d = fold_lower(descriptor_os);
    let l = fold_lower(local_os);
    contains_seq(d, l) || contains_seq(l, d) || d == l
}

/// The descriptor's architecture equals the local one, case-insensitively.
pub open spec fn arch_matches(descriptor_arch: Seq<u8>, local_arch: Seq<u8>) -> bool {
    fold_lower(descriptor_arch) == fold_lower(local_arch)
}

/// The descriptor fits the local platform.
pub open spec fn descriptor_matches(d: ArtifactDescriptor, p: Platform) -> bool {
    os_matches(d.os@, p.os@) && arch_matches(d.arch@, p.arch@)
}

/// Decides whether one descriptor fits the local platform.
pub fn descriptor_fits(d: &ArtifactDescriptor, p: &Platform) -> (r: bool)
    ensures
        r == descriptor_matches(*d, *p),
{
    let d_os = to_lowercase_bytes(d.os.as_slice());
    let l_os = to_lowercase_bytes(p.os.as_slice());
    let os_ok = contains_subslice(d_os.as_slice(), l_os.as_slice()) || contains_subslice(
        l_os.as_slice(),
        d_os.as_slice(),
    ) || bytes_equal(d_os.as_slice(), l_os.as_slice());
    if !os_ok {
        return false;
    }
    let d_arch = to_lowercase_bytes(d.arch.as_slice());
    let l_arch = to_lowercase_bytes(p.arch.as_slice());
    bytes_equal(d_arch.as_slice(), l_arch.as_slice())
}

/// Resolves a declared workload's descriptor list against the local platform:
/// the index of the first descriptor that fits, or nothing when none does.
/// A missed resolution is not fatal; the caller skips the workload.
pub fn resolve(binaries: &Vec<ArtifactDescriptor>, platform: &Platform) -> (r: Option<usize>)
    ensures
        match r {
            Some(i) => 0 <= i < binaries@.len() && descriptor_matches(binaries@[i as int], *platform)
                && forall|j: int| 0 <= j < i ==> !descriptor_matches(binaries@[j], *platform),
            None => forall|j: int|
                0 <= j < binaries@.len() ==> !descriptor_matches(binaries@[j], *platform),
        },
{
    let n = binaries.len();
    let mut i: usize = 0;
    while i < n
        invariant
            n == binaries@.len(),
            0 <= i <= n,
            forall|j: int| 0 <= j < i ==> !descriptor_matches(binaries@[j], *platform),
        decreases n - i,
    {
        if descriptor_fits(&binaries[i], platform) {
            return Some(i);
        }
        i += 1;
    }
    None
}

/// When the descriptor list has exactly one fitting entry, resolution returns
/// that entry: any index satisfying the first-match contract is the unique
/// fitting index.
pub proof fn lemma_resolve_unique(
    binaries: Seq<ArtifactDescriptor>,
    platform: Platform,
    i: int,
    k: int,
)
    requires
        0 <= k < binaries.len(),
        descriptor_matches(binaries[k], platform),
        forall|j: int| 0 <= j < binaries.len() && j != k ==> !descriptor_matches(
            binaries[j],
            platform,
        ),
        0 <= i < binaries.len(),
        descriptor_matches(binaries[i], platform),
        forall|j: int| 0 <= j < i ==> !descriptor_matches(binaries[j], platform),
    ensures
        i == k,
{
}

} // verus!
