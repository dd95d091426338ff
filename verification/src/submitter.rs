//! Classification of result-submission outcomes.
//!
//! A computed result goes back to the authority through a transactional call
//! awaited to finalization. The transport's verdict is classified so that a
//! job consumed by a competing submitter is a benign no-op rather than an
//! error, while every other failure surfaces as a hard error: blind
//! retry-on-any-error would hammer already-consumed jobs forever, and blind
//! no-retry would drop real transient failures.

use vstd::prelude::*;
use crate::text::contains_seq;
use crate::text::contains_subslice;

verus! {

/// A computed result and the coordinates it answers: the scope, job-number
/// and call identifier of the job-call event it resolves.
pub struct JobResult {
    pub scope: u64,
    pub job: u8,
    pub call_id: u64,
    pub payload: Vec<u8>,
}

/// Completed phase results expose who computed them; implemented by the
/// authority-side result types that carry such data.
pub trait PhaseResultExt {
    /// The participants for the phase result, if applicable.
    fn participants(&self) -> Option<Vec<[u8; 32]>>;

    /// The threshold value for the phase result, if applicable.
    fn threshold(&self) -> Option<u8>;
}

/// The classified verdict of one submission.
pub enum SubmissionOutcome {
    /// The authority accepted the result; the block reference finalized it.
    Confirmed { block: [u8; 32] },
    /// The authority no longer knows the job: it was already completed by a
    /// competing submitter. A successful no-op, never an error.
    AlreadyResolved,
    /// A hard failure, escalated to the caller.
    Rejected { reason: Vec<u8> },
}

/// The byte string the authority's transport error carries when a submitted
/// job no longer exists: the text `JobNotFound`.
pub open spec fn job_not_found_signal() -> Seq<u8> {
    seq![74u8, 111u8, 98u8, 78u8, 111u8, 116u8, 70u8, 111u8, 117u8, 110u8, 100u8]
}

/// The signal as a byte vector, for matching against transport messages.
pub fn job_not_found_bytes() -> (r: Vec<u8>)
    ensures
        r@ == job_not_found_signal(),
{
    let mut r: Vec<u8> = Vec::new();
    r.push(74);
    r.push(111);
    r.push(98);
    r.push(78);
    r.push(111);
    r.push(116);
    r.push(70);
    r.push(111);
    r.push(117);
    r.push(110);
    r.push(100);
    assert(r@ =~= job_not_found_signal());
    r
}

/// The verdict a transport result must be classified into: finalization gives
/// the confirming block; a failure message carrying the not-found signal is
/// the benign already-resolved case; any other failure is a hard rejection
/// with the message as its reason.
pub open spec fn spec_classify(transport: Result<[u8; 32], Vec<u8>>) -> SubmissionOutcome {
    match transport {
        Ok(block) => SubmissionOutcome::Confirmed { block },
        Err(msg) => {
            if contains_seq(msg@, job_not_found_signal()) {
                SubmissionOutcome::AlreadyResolved
            } else {
                SubmissionOutcome::Rejected { reason: msg }
            }
        },
    }
}

/// Classifies the transport verdict of one finalization-awaited submission.
pub fn classify_submission(transport: Result<[u8; 32], Vec<u8>>) -> (out: SubmissionOutcome)
    ensures
        out == spec_classify(transport),
{
    match transport {
        Ok(block) => SubmissionOutcome::Confirmed { block },
        Err(msg) => {
            let signal = job_not_found_bytes();
            if contains_subslice(msg.as_slice(), signal.as_slice()) {
                SubmissionOutcome::AlreadyResolved
            } else {
                SubmissionOutcome::Rejected { reason: msg }
            }
        },
    }
}

impl SubmissionOutcome {
    /// Only a rejection is an error to the submission path's caller; the
    /// already-resolved case never surfaces as one.
    pub fn is_error(&self) -> (r: bool)
        ensures
            r == (*self is Rejected),
    {
        match self {
            SubmissionOutcome::Rejected { .. } => true,
            _ => false,
        }
    }
}

/// A failure message carrying the not-found signal classifies as the benign
/// already-resolved outcome and never as an error; any other failure message
/// classifies as a rejection carrying that message.
pub proof fn lemma_stale_job_is_benign(msg: Vec<u8>)
    ensures
        contains_seq(msg@, job_not_found_signal()) ==> spec_classify(Err(msg))
            == SubmissionOutcome::AlreadyResolved && !(spec_classify(Err(msg)) is Rejected),
        !contains_seq(msg@, job_not_found_signal()) ==> spec_classify(Err(msg)) == (
        SubmissionOutcome::Rejected { reason: msg }),
{
}

} // verus!
