//! What each call of the contract does, as functions on models.
//!
//! A call is a function of the contract's storage and the call's arguments. It is either accepted,
//! with the new storage and what it asks of the host, or refused for one reason, which is the
//! first that applies.
use vstd::prelude::*;

use crate::error::GigGuardError;
use crate::fees::{fee_amount, fee_computable, FEE_BPS};
use crate::types::{
    DataKey, EffectsModel, JobModel, MilestoneModel, MilestoneStatus, TransferModel,
};

verus! {

/// 72 hours in seconds (72 * 60 * 60). If the client neither approves nor disputes within this
/// window after submission, the freelancer can claim the funds.
pub const TIMEOUT_SECONDS: u64 = 259_200;

/// The model of the contract: its own address, and its entries in the ledger.
#[verifier::ext_equal]
pub struct LedgerModel {
    pub address: Seq<char>,
    pub fee_collector: Option<Seq<char>>,
    pub job_count: Option<u64>,
    pub jobs: Map<u64, JobModel>,
}

/// What comes of a call: accepted, with a result, the new storage and the effects; or refused.
pub type Outcome<T> = Result<(T, LedgerModel, EffectsModel), GigGuardError>;

// ---------------------------------------------------------------------------------------------
// Reading
// ---------------------------------------------------------------------------------------------
/// The number of jobs created, which is the ID of the next one. A counter that was never stored
/// counts as zero.
pub open spec fn job_count(ledger: LedgerModel) -> u64 {
    match ledger.job_count {
        Some(count) => count,
        None => 0,
    }
}

/// The job stored under `job_id`.
pub open spec fn find_job(ledger: LedgerModel, job_id: u64) -> Result<JobModel, GigGuardError> {
    if ledger.jobs.contains_key(job_id) {
        Ok(ledger.jobs[job_id])
    } else {
        Err(GigGuardError::JobNotFound)
    }
}

// ---------------------------------------------------------------------------------------------
// Initialization and job creation
// ---------------------------------------------------------------------------------------------
/// Sets the fee collector and starts the job counter at zero.
pub open spec fn initialized(ledger: LedgerModel, fee_collector: Seq<char>) -> LedgerModel {
    LedgerModel { fee_collector: Some(fee_collector), job_count: Some(0), ..ledger }
}

/// The sum of the amounts.
pub open spec fn total(amounts: Seq<i128>) -> int
    decreases amounts.len(),
{
    if amounts.len() == 0 {
        0
    } else {
        total(amounts.drop_last()) + amounts.last()
    }
}

/// The first fault of the amounts, taken in order: one that is not positive, or one that brings
/// the running total over what an `i128` holds.
pub open spec fn amounts_fault(amounts: Seq<i128>) -> Option<GigGuardError>
    decreases amounts.len(),
{
    if amounts.len() == 0 {
        None
    } else if amounts_fault(amounts.drop_last()) is Some {
        amounts_fault(amounts.drop_last())
    } else if amounts.last() <= 0 {
        Some(GigGuardError::NonPositiveAmount)
    } else if total(amounts) > i128::MAX {
        Some(GigGuardError::TotalOverflow)
    } else {
        None
    }
}

/// Amounts have no fault exactly if all are positive and an `i128` holds their total.
pub proof fn lemma_amounts_accepted(amounts: Seq<i128>)
    ensures
        amounts_fault(amounts) is None <==> (forall|i: int|
            0 <= i < amounts.len() ==> #[trigger] amounts[i] > 0) && total(amounts) <= i128::MAX,
        (forall|i: int| 0 <= i < amounts.len() ==> #[trigger] amounts[i] > 0) ==> total(amounts)
            >= 0,
    decreases amounts.len(),
{
    if amounts.len() > 0 {
        let front = amounts.drop_last();
        lemma_amounts_accepted(front);
        if forall|i: int| 0 <= i < amounts.len() ==> #[trigger] amounts[i] > 0 {
            assert forall|i: int| 0 <= i < front.len() implies #[trigger] front[i] > 0 by {
                assert(amounts[i] > 0);
            }
            assert(amounts[amounts.len() - 1] > 0);
        }
        if (forall|i: int| 0 <= i < front.len() ==> #[trigger] front[i] > 0) && amounts.last() > 0 {
            assert forall|i: int| 0 <= i < amounts.len() implies #[trigger] amounts[i] > 0 by {
                if i < front.len() {
                    assert(front[i] > 0);
                }
            }
        }
    }
}

/// A milestone as a new job has it.
pub open spec fn new_milestone(amount: i128, description: Seq<u8>) -> MilestoneModel {
    MilestoneModel { description, amount, status: MilestoneStatus::Pending, submitted_at: 0 }
}

/// A new job.
pub open spec fn new_job(
    client: Seq<char>,
    freelancer: Seq<char>,
    token: Seq<char>,
    amounts: Seq<i128>,
    descriptions: Seq<Seq<u8>>,
) -> JobModel {
    JobModel {
        client,
        freelancer,
        token,
        total_amount: total(amounts) as i128,
        milestones: Seq::new(amounts.len(), |i: int| new_milestone(amounts[i], descriptions[i])),
        is_active: true,
        fee_bps: FEE_BPS,
    }
}

/// Why a job cannot be created from these milestones.
pub open spec fn creation_fault(
    ledger: LedgerModel,
    amounts: Seq<i128>,
    descriptions: Seq<Seq<u8>>,
) -> Option<GigGuardError> {
    if amounts.len() != descriptions.len() {
        Some(GigGuardError::MismatchedMilestones)
    } else if amounts.len() == 0 {
        Some(GigGuardError::NoMilestones)
    } else if amounts_fault(amounts) is Some {
        amounts_fault(amounts)
    } else if job_count(ledger) == u64::MAX {
        Some(GigGuardError::JobCountOverflow)
    } else {
        None
    }
}

/// Creates a job: the client pays the total to the contract, the job is stored under the next
/// ID, and the counter moves on.
pub open spec fn create(
    ledger: LedgerModel,
    client: Seq<char>,
    freelancer: Seq<char>,
    token: Seq<char>,
    amounts: Seq<i128>,
    descriptions: Seq<Seq<u8>>,
) -> Outcome<u64> {
    let job_id = job_count(ledger);
    let job = new_job(client, freelancer, token, amounts, descriptions);
    match creation_fault(ledger, amounts, descriptions) {
        Some(fault) => Err(fault),
        None => Ok(
            (
                job_id,
                LedgerModel {
                    jobs: ledger.jobs.insert(job_id, job),
                    job_count: Some((job_id + 1) as u64),
                    ..ledger
                },
                EffectsModel {
                    transfers: seq![
                        TransferModel {
                            token,
                            from: client,
                            to: ledger.address,
                            amount: job.total_amount,
                        },
                    ],
                    writes: seq![DataKey::Job(job_id), DataKey::JobCount],
                },
            ),
        ),
    }
}

/// The values of the items up to the first that has none.
pub open spec fn decoded<T>(items: Seq<Option<T>>) -> Seq<T>
    decreases items.len(),
{
    if items.len() == 0 {
        seq![]
    } else if decoded(items.drop_last()).len() == items.len() - 1 && items.last() is Some {
        decoded(items.drop_last()).push(items.last()->0)
    } else {
        decoded(items.drop_last())
    }
}

/// Creates a job from items of which some may have no value. The items are looked at in order,
/// the amounts before the descriptions.
pub open spec fn create_from_items(
    ledger: LedgerModel,
    client: Seq<char>,
    freelancer: Seq<char>,
    token: Seq<char>,
    amounts: Seq<Option<i128>>,
    descriptions: Seq<Option<Seq<u8>>>,
) -> Outcome<u64> {
    if amounts.len() != descriptions.len() {
        Err(GigGuardError::MismatchedMilestones)
    } else if amounts.len() == 0 {
        Err(GigGuardError::NoMilestones)
    } else if amounts_fault(decoded(amounts)) is Some {
        Err(amounts_fault(decoded(amounts))->0)
    } else if decoded(amounts).len() < amounts.len() || decoded(descriptions).len()
        < descriptions.len() {
        Err(GigGuardError::UndecodableMilestone)
    } else {
        create(ledger, client, freelancer, token, decoded(amounts), decoded(descriptions))
    }
}

// ---------------------------------------------------------------------------------------------
// Milestone operations
// ---------------------------------------------------------------------------------------------
/// The two parties of a job.
pub enum Party {
    Client,
    Freelancer,
}

/// The address of a party.
pub open spec fn party_address(job: JobModel, party: Party) -> Seq<char> {
    match party {
        Party::Client => job.client,
        Party::Freelancer => job.freelancer,
    }
}

/// The reason given to a caller who is not the party that an operation belongs to.
pub open spec fn not_the_party(party: Party) -> GigGuardError {
    match party {
        Party::Client => GigGuardError::NotTheClient,
        Party::Freelancer => GigGuardError::NotTheFreelancer,
    }
}

/// The milestone that `caller`, as `party` of the job, may operate on; it has to be in `status`,
/// or `otherwise` is the reason of the refusal.
pub open spec fn milestone_for(
    ledger: LedgerModel,
    party: Party,
    caller: Seq<char>,
    job_id: u64,
    milestone_index: u32,
    status: MilestoneStatus,
    otherwise: GigGuardError,
) -> Result<MilestoneModel, GigGuardError> {
    let job = ledger.jobs[job_id];
    if !ledger.jobs.contains_key(job_id) {
        Err(GigGuardError::JobNotFound)
    } else if !job.is_active {
        Err(GigGuardError::JobNotActive)
    } else if party_address(job, party) != caller {
        Err(not_the_party(party))
    } else if milestone_index >= job.milestones.len() {
        Err(GigGuardError::InvalidMilestoneIndex)
    } else if job.milestones[milestone_index as int].status != status {
        Err(otherwise)
    } else {
        Ok(job.milestones[milestone_index as int])
    }
}

/// Whether every milestone has been paid out, by approval or by timeout.
pub open spec fn all_paid(milestones: Seq<MilestoneModel>) -> bool {
    forall|i: int| 0 <= i < milestones.len() ==> is_paid((#[trigger] milestones[i]).status)
}

/// Whether a milestone in this status has been paid out.
pub open spec fn is_paid(status: MilestoneStatus) -> bool {
    status is Approved || status is Released
}

/// The storage with one milestone of one job replaced. The job stays active until all its
/// milestones are paid out.
pub open spec fn with_milestone(
    ledger: LedgerModel,
    job_id: u64,
    milestone_index: u32,
    milestone: MilestoneModel,
) -> LedgerModel {
    let job = ledger.jobs[job_id];
    let milestones = job.milestones.update(milestone_index as int, milestone);
    LedgerModel {
        jobs: ledger.jobs.insert(
            job_id,
            JobModel { milestones, is_active: job.is_active && !all_paid(milestones), ..job },
        ),
        ..ledger
    }
}

/// The effects of an operation that stores one job and pays nobody.
pub open spec fn job_stored(job_id: u64) -> EffectsModel {
    EffectsModel { transfers: seq![], writes: seq![DataKey::Job(job_id)] }
}

/// Submits a milestone at time `now`.
pub open spec fn submit(
    ledger: LedgerModel,
    caller: Seq<char>,
    job_id: u64,
    milestone_index: u32,
    now: u64,
) -> Outcome<()> {
    match milestone_for(
        ledger,
        Party::Freelancer,
        caller,
        job_id,
        milestone_index,
        MilestoneStatus::Pending,
        GigGuardError::NotPending,
    ) {
        Err(reason) => Err(reason),
        Ok(milestone) => Ok(
            (
                (),
                with_milestone(
                    ledger,
                    job_id,
                    milestone_index,
                    MilestoneModel {
                        status: MilestoneStatus::Submitted,
                        submitted_at: now,
                        ..milestone
                    },
                ),
                job_stored(job_id),
            ),
        ),
    }
}

/// Disputes a milestone.
pub open spec fn dispute(
    ledger: LedgerModel,
    caller: Seq<char>,
    job_id: u64,
    milestone_index: u32,
) -> Outcome<()> {
    match milestone_for(
        ledger,
        Party::Client,
        caller,
        job_id,
        milestone_index,
        MilestoneStatus::Submitted,
        GigGuardError::NotDisputable,
    ) {
        Err(reason) => Err(reason),
        Ok(milestone) => Ok(
            (
                (),
                with_milestone(
                    ledger,
                    job_id,
                    milestone_index,
                    MilestoneModel { status: MilestoneStatus::Disputed, ..milestone },
                ),
                job_stored(job_id),
            ),
        ),
    }
}

/// The payments that settle a milestone: the payout to the freelancer, and the fee to the fee
/// collector if there is a fee.
pub open spec fn settlement_transfers(
    ledger: LedgerModel,
    job: JobModel,
    amount: i128,
) -> Seq<TransferModel> {
    let fee = fee_amount(amount, job.fee_bps);
    let payout = TransferModel {
        token: job.token,
        from: ledger.address,
        to: job.freelancer,
        amount: (amount - fee) as i128,
    };
    if fee > 0 {
        seq![
            payout,
            TransferModel {
                token: job.token,
                from: ledger.address,
                to: ledger.fee_collector->0,
                amount: fee as i128,
            },
        ]
    } else {
        seq![payout]
    }
}

/// Pays out a milestone and moves it to `status`. With its last milestone a job is completed,
/// and no longer active.
pub open spec fn settle(
    ledger: LedgerModel,
    job_id: u64,
    milestone_index: u32,
    milestone: MilestoneModel,
    status: MilestoneStatus,
) -> Outcome<()> {
    let job = ledger.jobs[job_id];
    if !fee_computable(milestone.amount, job.fee_bps) {
        Err(GigGuardError::FeeOverflow)
    } else if fee_amount(milestone.amount, job.fee_bps) > 0 && ledger.fee_collector is None {
        Err(GigGuardError::FeeCollectorNotSet)
    } else {
        Ok(
            (
                (),
                with_milestone(
                    ledger,
                    job_id,
                    milestone_index,
                    MilestoneModel { status, ..milestone },
                ),
                EffectsModel {
                    transfers: settlement_transfers(ledger, job, milestone.amount),
                    writes: seq![DataKey::Job(job_id)],
                },
            ),
        )
    }
}

/// Approves a milestone, which pays it out.
pub open spec fn approve(
    ledger: LedgerModel,
    caller: Seq<char>,
    job_id: u64,
    milestone_index: u32,
) -> Outcome<()> {
    match milestone_for(
        ledger,
        Party::Client,
        caller,
        job_id,
        milestone_index,
        MilestoneStatus::Submitted,
        GigGuardError::NotSubmitted,
    ) {
        Err(reason) => Err(reason),
        Ok(milestone) => settle(
            ledger,
            job_id,
            milestone_index,
            milestone,
            MilestoneStatus::Approved,
        ),
    }
}

/// Claims a milestone at time `now`, which pays it out once the review window is over.
pub open spec fn claim(
    ledger: LedgerModel,
    caller: Seq<char>,
    job_id: u64,
    milestone_index: u32,
    now: u64,
) -> Outcome<()> {
    match milestone_for(
        ledger,
        Party::Freelancer,
        caller,
        job_id,
        milestone_index,
        MilestoneStatus::Submitted,
        GigGuardError::NotClaimable,
    ) {
        Err(reason) => Err(reason),
        Ok(milestone) => if milestone.submitted_at + TIMEOUT_SECONDS > u64::MAX {
            Err(GigGuardError::DeadlineOverflow)
        } else if now < milestone.submitted_at + TIMEOUT_SECONDS {
            Err(GigGuardError::TimeoutNotReached)
        } else {
            settle(ledger, job_id, milestone_index, milestone, MilestoneStatus::Released)
        },
    }
}

} // verus!
