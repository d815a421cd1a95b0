//! The reasons for which a call is refused.
use vstd::prelude::*;

verus! {

/// Why a call was refused. A refused call changes nothing and moves no funds.
#[derive(Clone, Copy, Debug, PartialEq, Eq, Structural)]
pub enum GigGuardError {
    /// Not as many descriptions as amounts
    MismatchedMilestones,
    /// A job without milestones
    NoMilestones,
    /// An amount that is zero or negative
    NonPositiveAmount,
    /// The amounts add up to more than an `i128` holds
    TotalOverflow,
    /// An amount that is not an `i128`, or a description that is not a string
    UndecodableMilestone,
    /// The job counter is at its last value
    JobCountOverflow,
    /// No job with this ID
    JobNotFound,
    /// The job accepts no more operations
    JobNotActive,
    /// The caller is not the job's freelancer
    NotTheFreelancer,
    /// The caller is not the job's client
    NotTheClient,
    /// The job has no milestone with this index
    InvalidMilestoneIndex,
    /// Submission of a milestone that was submitted before
    NotPending,
    /// Approval of a milestone that does not await review
    NotSubmitted,
    /// Dispute of a milestone that does not await review
    NotDisputable,
    /// Timeout claim on a milestone that does not await review
    NotClaimable,
    /// The end of the review window is past the last time that a `u64` holds
    DeadlineOverflow,
    /// The review window is still open
    TimeoutNotReached,
    /// Amount times fee rate is more than an `i128` holds
    FeeOverflow,
    /// A fee is due and nobody is set to receive it
    FeeCollectorNotSet,
}

/// The text with which a call fails.
pub open spec fn message_text(error: GigGuardError) -> Seq<char> {
    match error {
        GigGuardError::MismatchedMilestones => "Mismatched milestone data"@,
        GigGuardError::NoMilestones => "Must have at least one milestone"@,
        GigGuardError::NonPositiveAmount => "Milestone amount must be positive"@,
        GigGuardError::TotalOverflow => "attempt to add with overflow"@,
        GigGuardError::UndecodableMilestone => "Milestone data has the wrong type"@,
        GigGuardError::JobCountOverflow => "attempt to add with overflow"@,
        GigGuardError::JobNotFound => "Job not found"@,
        GigGuardError::JobNotActive => "Job is not active"@,
        GigGuardError::NotTheFreelancer => "Not the assigned freelancer for this job"@,
        GigGuardError::NotTheClient => "Not the client for this job"@,
        GigGuardError::InvalidMilestoneIndex => "Invalid milestone index"@,
        GigGuardError::NotPending => "Milestone is not in pending state"@,
        GigGuardError::NotSubmitted => "Milestone has not been submitted yet"@,
        GigGuardError::NotDisputable => "Can only dispute submitted milestones"@,
        GigGuardError::NotClaimable => "Milestone must be in submitted state to claim timeout"@,
        GigGuardError::DeadlineOverflow => "attempt to add with overflow"@,
        GigGuardError::TimeoutNotReached => "72-hour timeout has not been reached yet"@,
        GigGuardError::FeeOverflow => "attempt to multiply with overflow"@,
        GigGuardError::FeeCollectorNotSet => "Fee collector not set"@,
    }
}

impl GigGuardError {
    /// The text with which a call fails for this reason.
    pub fn message(&self) -> (text: &'static str)
        ensures
            text@ == message_text(*self),
    {
        match self {
            GigGuardError::MismatchedMilestones => "Mismatched milestone data",
            GigGuardError::NoMilestones => "Must have at least one milestone",
            GigGuardError::NonPositiveAmount => "Milestone amount must be positive",
            GigGuardError::TotalOverflow => "attempt to add with overflow",
            GigGuardError::UndecodableMilestone => "Milestone data has the wrong type",
            GigGuardError::JobCountOverflow => "attempt to add with overflow",
            GigGuardError::JobNotFound => "Job not found",
            GigGuardError::JobNotActive => "Job is not active",
            GigGuardError::NotTheFreelancer => "Not the assigned freelancer for this job",
            GigGuardError::NotTheClient => "Not the client for this job",
            GigGuardError::InvalidMilestoneIndex => "Invalid milestone index",
            GigGuardError::NotPending => "Milestone is not in pending state",
            GigGuardError::NotSubmitted => "Milestone has not been submitted yet",
            GigGuardError::NotDisputable => "Can only dispute submitted milestones",
            GigGuardError::NotClaimable => "Milestone must be in submitted state to claim timeout",
            GigGuardError::DeadlineOverflow => "attempt to add with overflow",
            GigGuardError::TimeoutNotReached => "72-hour timeout has not been reached yet",
            GigGuardError::FeeOverflow => "attempt to multiply with overflow",
            GigGuardError::FeeCollectorNotSet => "Fee collector not set",
        }
    }
}

/// A refusal for want of range fails as the arithmetic itself does: the total, the next ID and the
/// end of the review window are sums, the fee is a product. An item of the wrong type is told
/// apart from these.
pub proof fn law_texts_of_range(error: GigGuardError)
    ensures
        error is TotalOverflow || error is JobCountOverflow || error is DeadlineOverflow
            ==> message_text(error) == "attempt to add with overflow"@,
        error is FeeOverflow ==> message_text(error) == "attempt to multiply with overflow"@,
        error is UndecodableMilestone ==> message_text(error)
            == "Milestone data has the wrong type"@,
{
}

} // verus!
