//! What holds of the contract as a whole, over every call and every sequence of calls.
use vstd::prelude::*;

use crate::error::GigGuardError;
use crate::fees::{fee_amount, fee_computable, lemma_scaled_sign, FEE_BPS};
use crate::model::{
    all_paid, approve, claim, create, dispute, find_job, initialized, is_paid, job_count,
    lemma_amounts_accepted, new_job, settlement_transfers, submit, total, with_milestone,
    LedgerModel, Outcome, TIMEOUT_SECONDS,
};
use crate::types::{DataKey, EffectsModel, JobModel, MilestoneModel, MilestoneStatus, TransferModel};

verus! {

// ---------------------------------------------------------------------------------------------
// Calls and sequences of calls
// ---------------------------------------------------------------------------------------------
/// A call that changes the contract's storage, with its arguments.
pub enum Call {
    Initialize { fee_collector: Seq<char> },
    CreateJob {
        client: Seq<char>,
        freelancer: Seq<char>,
        token: Seq<char>,
        amounts: Seq<i128>,
        descriptions: Seq<Seq<u8>>,
    },
    Submit { caller: Seq<char>, job_id: u64, milestone_index: u32, now: u64 },
    Approve { caller: Seq<char>, job_id: u64, milestone_index: u32 },
    Claim { caller: Seq<char>, job_id: u64, milestone_index: u32, now: u64 },
    Dispute { caller: Seq<char>, job_id: u64, milestone_index: u32 },
}

/// What a call does, without the value that it returns.
pub open spec fn step(ledger: LedgerModel, call: Call) -> Outcome<()> {
    match call {
        Call::Initialize { fee_collector } => Ok(
            (
                (),
                initialized(ledger, fee_collector),
                EffectsModel {
                    transfers: seq![],
                    writes: seq![DataKey::FeeCollector, DataKey::JobCount],
                },
            ),
        ),
        Call::CreateJob { client, freelancer, token, amounts, descriptions } => match create(
            ledger,
            client,
            freelancer,
            token,
            amounts,
            descriptions,
        ) {
            Ok((_, next, effects)) => Ok(((), next, effects)),
            Err(reason) => Err(reason),
        },
        Call::Submit { caller, job_id, milestone_index, now } => submit(
            ledger,
            caller,
            job_id,
            milestone_index,
            now,
        ),
        Call::Approve { caller, job_id, milestone_index } => approve(
            ledger,
            caller,
            job_id,
            milestone_index,
        ),
        Call::Claim { caller, job_id, milestone_index, now } => claim(
            ledger,
            caller,
            job_id,
            milestone_index,
            now,
        ),
        Call::Dispute { caller, job_id, milestone_index } => dispute(
            ledger,
            caller,
            job_id,
            milestone_index,
        ),
    }
}

/// The storage after a call; a refused call leaves it as it is.
pub open spec fn after(ledger: LedgerModel, call: Call) -> LedgerModel {
    match step(ledger, call) {
        Ok((_, next, _)) => next,
        Err(_) => ledger,
    }
}

/// The payments of a call; a refused call makes none.
pub open spec fn payments(ledger: LedgerModel, call: Call) -> Seq<TransferModel> {
    match step(ledger, call) {
        Ok((_, _, effects)) => effects.transfers,
        Err(_) => seq![],
    }
}

/// The storage after a sequence of calls.
pub open spec fn run(ledger: LedgerModel, calls: Seq<Call>) -> LedgerModel
    decreases calls.len(),
{
    if calls.len() == 0 {
        ledger
    } else {
        after(run(ledger, calls.drop_last()), calls.last())
    }
}

/// Whether the contract is initialized only before its first job.
pub open spec fn initialized_first(ledger: LedgerModel, calls: Seq<Call>) -> bool
    decreases calls.len(),
{
    calls.len() > 0 ==> {
        let before = run(ledger, calls.drop_last());
        &&& initialized_first(ledger, calls.drop_last())
        &&& calls.last() is Initialize ==> before.jobs == Map::<u64, JobModel>::empty()
    }
}

// ---------------------------------------------------------------------------------------------
// The storage stays well-formed
// ---------------------------------------------------------------------------------------------
/// The amounts of the milestones.
pub open spec fn amounts_of(milestones: Seq<MilestoneModel>) -> Seq<i128> {
    milestones.map_values(|m: MilestoneModel| m.amount)
}

/// A job as the contract keeps it: active exactly until all its milestones are paid out, at the
/// platform's fee rate, with milestones of positive amounts that add up to the deposit.
pub open spec fn job_well_formed(job: JobModel) -> bool {
    &&& job.is_active <==> !all_paid(job.milestones)
    &&& job.fee_bps == FEE_BPS
    &&& job.milestones.len() > 0
    &&& forall|i: int| 0 <= i < job.milestones.len() ==> (#[trigger] job.milestones[i]).amount > 0
    &&& job.total_amount == total(amounts_of(job.milestones))
}

/// The storage as the contract keeps it: every job is well-formed, and its ID was drawn from the
/// counter.
pub open spec fn well_formed(ledger: LedgerModel) -> bool {
    forall|id: u64| #[trigger]
        ledger.jobs.contains_key(id) ==> id < job_count(ledger) && job_well_formed(ledger.jobs[id])
}

/// The storage of a contract without jobs is well-formed.
pub proof fn law_well_formed_at_first(ledger: LedgerModel)
    requires
        ledger.jobs == Map::<u64, JobModel>::empty(),
    ensures
        well_formed(ledger),
{
}

/// Every call keeps the storage well-formed, except that initialization does so only before
/// the first job.
pub proof fn law_well_formed_kept(ledger: LedgerModel, call: Call)
    requires
        well_formed(ledger),
        call is Initialize ==> ledger.jobs == Map::<u64, JobModel>::empty(),
    ensures
        well_formed(after(ledger, call)),
{
    let next = after(ledger, call);
    match call {
        Call::Initialize { .. } => {},
        Call::CreateJob { client, freelancer, token, amounts, descriptions } => {
            if step(ledger, call) is Ok {
                lemma_amounts_accepted(amounts);
                let job = new_job(client, freelancer, token, amounts, descriptions);
                assert(amounts_of(job.milestones) =~= amounts);
                assert(!is_paid(job.milestones[0].status));
                assert(job_well_formed(job));
            }
        },
        Call::Submit { job_id, milestone_index, .. } => {
            lemma_job_kept(ledger, call, job_id, milestone_index);
        },
        Call::Approve { job_id, milestone_index, .. } => {
            lemma_job_kept(ledger, call, job_id, milestone_index);
        },
        Call::Claim { job_id, milestone_index, .. } => {
            lemma_job_kept(ledger, call, job_id, milestone_index);
        },
        Call::Dispute { job_id, milestone_index, .. } => {
            lemma_job_kept(ledger, call, job_id, milestone_index);
        },
    }
}

/// A milestone operation keeps its job well-formed.
proof fn lemma_job_kept(ledger: LedgerModel, call: Call, job_id: u64, milestone_index: u32)
    requires
        well_formed(ledger),
        step(ledger, call) is Ok ==> ledger.jobs.contains_key(job_id)
            && ledger.jobs[job_id].is_active && milestone_index
            < ledger.jobs[job_id].milestones.len() && exists|m: MilestoneModel|
            after(ledger, call) == with_milestone(ledger, job_id, milestone_index, m) && m.amount
                == ledger.jobs[job_id].milestones[milestone_index as int].amount,
    ensures
        well_formed(after(ledger, call)),
{
    if step(ledger, call) is Ok {
        let job = ledger.jobs[job_id];
        let next = after(ledger, call).jobs[job_id];
        assert(amounts_of(next.milestones) =~= amounts_of(job.milestones));
        assert(job_well_formed(job));
        assert forall|i: int| 0 <= i < next.milestones.len() implies (
        #[trigger] next.milestones[i]).amount > 0 by {
            assert(job.milestones[i].amount > 0);
        }
    }
}

/// A sequence of calls keeps the storage well-formed, if the contract is initialized only before
/// its first job.
pub proof fn law_well_formed_always(ledger: LedgerModel, calls: Seq<Call>)
    requires
        well_formed(ledger),
        initialized_first(ledger, calls),
    ensures
        well_formed(run(ledger, calls)),
    decreases calls.len(),
{
    if calls.len() > 0 {
        law_well_formed_always(ledger, calls.drop_last());
        law_well_formed_kept(run(ledger, calls.drop_last()), calls.last());
    }
}

// ---------------------------------------------------------------------------------------------
// The lifecycle of a milestone
// ---------------------------------------------------------------------------------------------
/// Whether a milestone in the first status may be found in the second one call later.
pub open spec fn may_become(from: MilestoneStatus, to: MilestoneStatus) -> bool {
    ||| from == to
    ||| from is Pending && to is Submitted
    ||| from is Submitted && (to is Approved || to is Disputed || to is Released)
}

/// Whether a milestone has reached the end of its lifecycle.
pub open spec fn is_final(status: MilestoneStatus) -> bool {
    status is Approved || status is Disputed || status is Released
}

/// Whether a job has this milestone.
pub open spec fn has_milestone(ledger: LedgerModel, job_id: u64, milestone_index: u32) -> bool {
    ledger.jobs.contains_key(job_id) && milestone_index < ledger.jobs[job_id].milestones.len()
}

/// A milestone of a job.
pub open spec fn milestone_at(
    ledger: LedgerModel,
    job_id: u64,
    milestone_index: u32,
) -> MilestoneModel {
    ledger.jobs[job_id].milestones[milestone_index as int]
}

/// Whether a call stores a new job in place of this one. Job IDs are drawn from a counter, so
/// this takes a counter that was set back: see [`law_ids_not_reused`].
pub open spec fn replaces(ledger: LedgerModel, call: Call, job_id: u64) -> bool {
    call is CreateJob && step(ledger, call) is Ok && job_count(ledger) == job_id
}

/// Whether none of the calls stores a new job in place of this one.
pub open spec fn keeps(ledger: LedgerModel, calls: Seq<Call>, job_id: u64) -> bool
    decreases calls.len(),
{
    calls.len() > 0 ==> {
        &&& keeps(ledger, calls.drop_last(), job_id)
        &&& !replaces(run(ledger, calls.drop_last()), calls.last(), job_id)
    }
}

/// If the contract is initialized only before its first job, no job takes the place of another.
pub proof fn law_ids_not_reused(ledger: LedgerModel, calls: Seq<Call>, job_id: u64)
    requires
        well_formed(ledger),
        initialized_first(ledger, calls),
        ledger.jobs.contains_key(job_id),
    ensures
        keeps(ledger, calls, job_id),
        run(ledger, calls).jobs.contains_key(job_id),
    decreases calls.len(),
{
    if calls.len() > 0 {
        law_ids_not_reused(ledger, calls.drop_last(), job_id);
        law_well_formed_always(ledger, calls.drop_last());
    }
}

/// Every call leaves the terms of every job as they are (its parties, token, deposit, fee rate,
/// and the description and amount of each milestone), and moves the status of each milestone
/// along Pending -> Submitted -> Approved/Disputed/Released or not at all. The time of submission
/// changes only on submission. An active job stops being active exactly when the call pays out
/// the last of its milestones, and no job becomes active again.
pub proof fn law_lifecycle(ledger: LedgerModel, call: Call, job_id: u64, milestone_index: u32)
    requires
        has_milestone(ledger, job_id, milestone_index),
        !replaces(ledger, call, job_id),
    ensures
        has_milestone(after(ledger, call), job_id, milestone_index),
        ({
            let old_job = ledger.jobs[job_id];
            let next_job = after(ledger, call).jobs[job_id];
            let old_one = milestone_at(ledger, job_id, milestone_index);
            let new_one = milestone_at(after(ledger, call), job_id, milestone_index);
            &&& next_job.milestones.len() == old_job.milestones.len()
            &&& next_job == (JobModel {
                milestones: next_job.milestones,
                is_active: next_job.is_active,
                ..old_job
            })
            &&& next_job.is_active == (old_job.is_active && !(all_paid(next_job.milestones)
                && !all_paid(old_job.milestones)))
            &&& new_one == (MilestoneModel {
                status: new_one.status,
                submitted_at: new_one.submitted_at,
                ..old_one
            })
            &&& may_become(old_one.status, new_one.status)
            &&& new_one.submitted_at != old_one.submitted_at ==> old_one.status is Pending
                && new_one.status is Submitted
        }),
{
    let old_job = ledger.jobs[job_id];
    let next_job = after(ledger, call).jobs[job_id];
    match target(call) {
        Some((id, index)) => {
            if step(ledger, call) is Ok && id == job_id {
                // The milestone that the call operates on was not paid out before.
                assert(!is_paid(old_job.milestones[index as int].status));
            }
        },
        None => {},
    }
}

/// The milestone that a call operates on, by job and index.
pub open spec fn target(call: Call) -> Option<(u64, u32)> {
    match call {
        Call::Initialize { .. } => None,
        Call::CreateJob { .. } => None,
        Call::Submit { job_id, milestone_index, .. } => Some((job_id, milestone_index)),
        Call::Approve { job_id, milestone_index, .. } => Some((job_id, milestone_index)),
        Call::Claim { job_id, milestone_index, .. } => Some((job_id, milestone_index)),
        Call::Dispute { job_id, milestone_index, .. } => Some((job_id, milestone_index)),
    }
}

/// What an accepted call makes of the milestone that it operates on.
pub open spec fn operated(milestone: MilestoneModel, call: Call) -> MilestoneModel {
    match call {
        Call::Submit { now, .. } => MilestoneModel {
            status: MilestoneStatus::Submitted,
            submitted_at: now,
            ..milestone
        },
        Call::Approve { .. } => MilestoneModel { status: MilestoneStatus::Approved, ..milestone },
        Call::Claim { .. } => MilestoneModel { status: MilestoneStatus::Released, ..milestone },
        Call::Dispute { .. } => MilestoneModel { status: MilestoneStatus::Disputed, ..milestone },
        _ => milestone,
    }
}

/// A milestone operation is found in the job afterwards, and touches no other milestone: its own
/// has the new status, a submission its time, and every other one, of this job or another, is
/// found as it was. Fee collector and counter stay as they are.
pub proof fn law_operation_is_found(
    ledger: LedgerModel,
    call: Call,
    job_id: u64,
    milestone_index: u32,
)
    requires
        step(ledger, call) is Ok,
        target(call) is Some,
        has_milestone(ledger, job_id, milestone_index),
    ensures
        ({
            let next = after(ledger, call);
            let old_one = milestone_at(ledger, job_id, milestone_index);
            &&& find_job(next, job_id) is Ok
            &&& milestone_at(next, job_id, milestone_index) == if target(call) == Some(
                (job_id, milestone_index),
            ) {
                operated(old_one, call)
            } else {
                old_one
            }
            &&& next.jobs.dom() == ledger.jobs.dom()
            &&& next.fee_collector == ledger.fee_collector
            &&& next.job_count == ledger.job_count
        }),
{
    assert(after(ledger, call).jobs.dom() =~= ledger.jobs.dom());
}

/// A milestone that was approved, released or disputed stays as it is through any sequence of
/// calls, and every later call to submit, approve, claim or dispute it is refused, whoever makes
/// it and whenever: nothing is paid twice, and a dispute freezes the funds.
pub proof fn law_final_is_final(
    ledger: LedgerModel,
    calls: Seq<Call>,
    job_id: u64,
    milestone_index: u32,
    caller: Seq<char>,
    now: u64,
)
    requires
        keeps(ledger, calls, job_id),
        has_milestone(ledger, job_id, milestone_index),
        is_final(milestone_at(ledger, job_id, milestone_index).status),
    ensures
        has_milestone(run(ledger, calls), job_id, milestone_index),
        milestone_at(run(ledger, calls), job_id, milestone_index) == milestone_at(
            ledger,
            job_id,
            milestone_index,
        ),
        submit(run(ledger, calls), caller, job_id, milestone_index, now) is Err,
        approve(run(ledger, calls), caller, job_id, milestone_index) is Err,
        claim(run(ledger, calls), caller, job_id, milestone_index, now) is Err,
        dispute(run(ledger, calls), caller, job_id, milestone_index) is Err,
    decreases calls.len(),
{
    if calls.len() > 0 {
        let before = run(ledger, calls.drop_last());
        law_final_is_final(ledger, calls.drop_last(), job_id, milestone_index, caller, now);
        law_lifecycle(before, calls.last(), job_id, milestone_index);
    }
}

/// A disputed milestone is never paid out: after any sequence of calls, the freelancer's claim
/// and the client's approval are refused for the milestone's status, at any time.
pub proof fn law_dispute_blocks_release(
    ledger: LedgerModel,
    client: Seq<char>,
    job_id: u64,
    milestone_index: u32,
    calls: Seq<Call>,
    now: u64,
)
    requires
        dispute(ledger, client, job_id, milestone_index) is Ok,
        keeps(
            after(ledger, Call::Dispute { caller: client, job_id, milestone_index }),
            calls,
            job_id,
        ),
    ensures
        ({
            let job = ledger.jobs[job_id];
            let call = Call::Dispute { caller: client, job_id, milestone_index };
            let later = run(after(ledger, call), calls);
            &&& claim(later, job.freelancer, job_id, milestone_index, now) == Err::<
                ((), LedgerModel, EffectsModel),
                _,
            >(GigGuardError::NotClaimable)
            &&& approve(later, job.client, job_id, milestone_index) == Err::<
                ((), LedgerModel, EffectsModel),
                _,
            >(GigGuardError::NotSubmitted)
        }),
{
    let call = Call::Dispute { caller: client, job_id, milestone_index };
    let disputed = after(ledger, call);
    law_final_is_final(disputed, calls, job_id, milestone_index, client, now);
    assert(!is_paid(milestone_at(disputed, job_id, milestone_index).status));
    law_terms_kept(disputed, calls, job_id);
    lemma_stays_active(disputed, calls, job_id, milestone_index);
}

/// The statuses that a milestone can come to from a status, over any number of calls.
pub open spec fn may_reach(from: MilestoneStatus, to: MilestoneStatus) -> bool {
    ||| from == to
    ||| from is Pending
    ||| from is Submitted && is_final(to)
}

/// Any sequence of calls leaves the terms of a job as they were: its parties, token, deposit and
/// fee rate, the number of its milestones, and the amount and description of each. The status of
/// each milestone only moves on, the time of submission stays once the milestone is submitted, and
/// a job that is not active does not become so again.
pub proof fn law_terms_kept(ledger: LedgerModel, calls: Seq<Call>, job_id: u64)
    requires
        keeps(ledger, calls, job_id),
        ledger.jobs.contains_key(job_id),
    ensures
        run(ledger, calls).jobs.contains_key(job_id),
        ({
            let first = ledger.jobs[job_id];
            let later = run(ledger, calls).jobs[job_id];
            &&& later.client == first.client
            &&& later.freelancer == first.freelancer
            &&& later.token == first.token
            &&& later.total_amount == first.total_amount
            &&& later.fee_bps == first.fee_bps
            &&& later.is_active ==> first.is_active
            &&& later.milestones.len() == first.milestones.len()
            &&& forall|i: int|
                0 <= i < later.milestones.len() ==> {
                    let milestone = #[trigger] later.milestones[i];
                    &&& milestone.amount == first.milestones[i].amount
                    &&& milestone.description == first.milestones[i].description
                    &&& may_reach(first.milestones[i].status, milestone.status)
                    &&& !(first.milestones[i].status is Pending) ==> milestone.submitted_at
                        == first.milestones[i].submitted_at
                }
        }),
    decreases calls.len(),
{
    if calls.len() > 0 {
        law_terms_kept(ledger, calls.drop_last(), job_id);
    }
}

/// A job that is active stays so while this milestone is not paid out.
proof fn lemma_stays_active(
    ledger: LedgerModel,
    calls: Seq<Call>,
    job_id: u64,
    milestone_index: u32,
)
    requires
        keeps(ledger, calls, job_id),
        has_milestone(ledger, job_id, milestone_index),
        ledger.jobs[job_id].is_active,
    ensures
        ({
            let later = run(ledger, calls);
            &&& has_milestone(later, job_id, milestone_index)
            &&& !is_paid(milestone_at(later, job_id, milestone_index).status)
                ==> later.jobs[job_id].is_active
        }),
    decreases calls.len(),
{
    if calls.len() > 0 {
        let before = run(ledger, calls.drop_last());
        lemma_stays_active(ledger, calls.drop_last(), job_id, milestone_index);
        law_lifecycle(before, calls.last(), job_id, milestone_index);
    }
}

/// A milestone that no call operates on stays as it is, whatever becomes of the other milestones
/// and the other jobs, and while it is not paid out its job stays active.
pub proof fn law_untouched_milestone_waits(
    ledger: LedgerModel,
    calls: Seq<Call>,
    job_id: u64,
    milestone_index: u32,
)
    requires
        keeps(ledger, calls, job_id),
        has_milestone(ledger, job_id, milestone_index),
        ledger.jobs[job_id].is_active,
        forall|i: int|
            0 <= i < calls.len() ==> target(#[trigger] calls[i]) != Some((job_id, milestone_index)),
    ensures
        has_milestone(run(ledger, calls), job_id, milestone_index),
        milestone_at(run(ledger, calls), job_id, milestone_index) == milestone_at(
            ledger,
            job_id,
            milestone_index,
        ),
        !is_paid(milestone_at(ledger, job_id, milestone_index).status) ==> run(
            ledger,
            calls,
        ).jobs[job_id].is_active,
    decreases calls.len(),
{
    if calls.len() > 0 {
        let front = calls.drop_last();
        assert forall|i: int| 0 <= i < front.len() implies target(#[trigger] front[i]) != Some(
            (job_id, milestone_index),
        ) by {
            assert(target(calls[i]) != Some((job_id, milestone_index)));
        }
        law_untouched_milestone_waits(ledger, front, job_id, milestone_index);
        assert(target(calls[calls.len() - 1]) != Some((job_id, milestone_index)));
    }
    lemma_stays_active(ledger, calls, job_id, milestone_index);
}

/// A job that is no longer active stays as it is through any sequence of calls, and every later
/// call to submit, approve, claim or dispute one of its milestones is refused for that reason,
/// whoever makes it and whenever.
pub proof fn law_completed_job_is_closed(
    ledger: LedgerModel,
    calls: Seq<Call>,
    job_id: u64,
    milestone_index: u32,
    caller: Seq<char>,
    now: u64,
)
    requires
        keeps(ledger, calls, job_id),
        ledger.jobs.contains_key(job_id),
        !ledger.jobs[job_id].is_active,
    ensures
        find_job(run(ledger, calls), job_id) == find_job(ledger, job_id),
        ({
            let later = run(ledger, calls);
            let refused = Err::<((), LedgerModel, EffectsModel), _>(GigGuardError::JobNotActive);
            &&& submit(later, caller, job_id, milestone_index, now) == refused
            &&& approve(later, caller, job_id, milestone_index) == refused
            &&& claim(later, caller, job_id, milestone_index, now) == refused
            &&& dispute(later, caller, job_id, milestone_index) == refused
        }),
    decreases calls.len(),
{
    if calls.len() > 0 {
        law_completed_job_is_closed(
            ledger,
            calls.drop_last(),
            job_id,
            milestone_index,
            caller,
            now,
        );
    }
}

/// The payment of a job's last milestone completes the job: an accepted
/// approval or claim leaves the job active exactly if a milestone other than its own is not paid
/// out yet.
pub proof fn law_last_payment_completes(
    ledger: LedgerModel,
    call: Call,
    job_id: u64,
    milestone_index: u32,
)
    requires
        call is Approve || call is Claim,
        target(call) == Some((job_id, milestone_index)),
        step(ledger, call) is Ok,
    ensures
        after(ledger, call).jobs[job_id].is_active <==> exists|i: int|
            0 <= i < ledger.jobs[job_id].milestones.len() && i != milestone_index && !is_paid(
                (#[trigger] ledger.jobs[job_id].milestones[i]).status,
            ),
{
    let old = ledger.jobs[job_id].milestones;
    let new = after(ledger, call).jobs[job_id].milestones;
    if !all_paid(new) {
        let i = choose|i: int| 0 <= i < new.len() && !is_paid((#[trigger] new[i]).status);
        assert(old[i] == new[i]);
    }
    if exists|i: int|
        0 <= i < old.len() && i != milestone_index && !is_paid((#[trigger] old[i]).status) {
        let i = choose|i: int|
            0 <= i < old.len() && i != milestone_index && !is_paid((#[trigger] old[i]).status);
        assert(new[i] == old[i]);
    }
}

// ---------------------------------------------------------------------------------------------
// Release of the funds
// ---------------------------------------------------------------------------------------------
/// Whether a call, if it is accepted, ends the review of a milestone submitted at `submitted_at`:
/// the client approves or disputes, or the freelancer claims after the timeout.
pub open spec fn ends_review(
    call: Call,
    job: JobModel,
    job_id: u64,
    milestone_index: u32,
    submitted_at: u64,
) -> bool {
    match call {
        Call::Approve { caller, job_id: id, milestone_index: index } => caller == job.client && id
            == job_id && index == milestone_index,
        Call::Dispute { caller, job_id: id, milestone_index: index } => caller == job.client && id
            == job_id && index == milestone_index,
        Call::Claim { caller, job_id: id, milestone_index: index, now } => caller == job.freelancer
            && id == job_id && index == milestone_index && now >= submitted_at + TIMEOUT_SECONDS,
        _ => false,
    }
}

/// Whether none of the calls ends the review of the milestone.
pub open spec fn unanswered(
    calls: Seq<Call>,
    job: JobModel,
    job_id: u64,
    milestone_index: u32,
    submitted_at: u64,
) -> bool {
    forall|i: int|
        0 <= i < calls.len() ==> !ends_review(
            #[trigger] calls[i],
            job,
            job_id,
            milestone_index,
            submitted_at,
        )
}

/// Whether the contract can pay out an amount of a job: the fee can be computed, and where there
/// is a fee somebody is set to receive it.
pub open spec fn can_pay_out(ledger: LedgerModel, job: JobModel, amount: i128) -> bool {
    &&& fee_computable(amount, job.fee_bps)
    &&& fee_amount(amount, job.fee_bps) > 0 ==> ledger.fee_collector is Some
}

/// A submitted milestone waits, unchanged, until its review ends.
proof fn lemma_review_waits(
    ledger: LedgerModel,
    freelancer: Seq<char>,
    job_id: u64,
    milestone_index: u32,
    submitted_at: u64,
    calls: Seq<Call>,
)
    requires
        submit(ledger, freelancer, job_id, milestone_index, submitted_at) is Ok,
        keeps(
            after(
                ledger,
                Call::Submit { caller: freelancer, job_id, milestone_index, now: submitted_at },
            ),
            calls,
            job_id,
        ),
        unanswered(calls, ledger.jobs[job_id], job_id, milestone_index, submitted_at),
    ensures
        ({
            let call = Call::Submit {
                caller: freelancer,
                job_id,
                milestone_index,
                now: submitted_at,
            };
            let later = run(after(ledger, call), calls);
            &&& has_milestone(later, job_id, milestone_index)
            &&& milestone_at(later, job_id, milestone_index) == (MilestoneModel {
                status: MilestoneStatus::Submitted,
                submitted_at,
                ..milestone_at(ledger, job_id, milestone_index)
            })
            &&& later.jobs[job_id] == (JobModel {
                milestones: later.jobs[job_id].milestones,
                ..ledger.jobs[job_id]
            })
        }),
    decreases calls.len(),
{
    let job = ledger.jobs[job_id];
    let call = Call::Submit { caller: freelancer, job_id, milestone_index, now: submitted_at };
    if calls.len() > 0 {
        let before = run(after(ledger, call), calls.drop_last());
        assert forall|i: int| 0 <= i < calls.drop_last().len() implies !ends_review(
            #[trigger] calls.drop_last()[i],
            job,
            job_id,
            milestone_index,
            submitted_at,
        ) by {
            assert(!ends_review(calls[i], job, job_id, milestone_index, submitted_at));
        }
        lemma_review_waits(
            ledger,
            freelancer,
            job_id,
            milestone_index,
            submitted_at,
            calls.drop_last(),
        );
        law_lifecycle(before, calls.last(), job_id, milestone_index);
        assert(!is_paid(milestone_at(before, job_id, milestone_index).status));
        assert(!ends_review(calls.last(), job, job_id, milestone_index, submitted_at));
    }
}

/// A client who does not respond cannot keep the freelancer from being paid. Let the freelancer
/// submit a milestone at time `submitted_at`, and let any calls follow, of anybody, among them no
/// approval or dispute of this milestone by the client. From 72 hours after the submission on,
/// the freelancer's claim is accepted, unless an earlier such claim was: it pays the milestone
/// out, and the milestone is released.
pub proof fn law_timeout_release(
    ledger: LedgerModel,
    freelancer: Seq<char>,
    job_id: u64,
    milestone_index: u32,
    submitted_at: u64,
    calls: Seq<Call>,
    now: u64,
)
    requires
        submit(ledger, freelancer, job_id, milestone_index, submitted_at) is Ok,
        unanswered(calls, ledger.jobs[job_id], job_id, milestone_index, submitted_at),
        submitted_at + TIMEOUT_SECONDS <= now,
        ({
            let job = ledger.jobs[job_id];
            let call = Call::Submit {
                caller: freelancer,
                job_id,
                milestone_index,
                now: submitted_at,
            };
            &&& keeps(after(ledger, call), calls, job_id)
            &&& can_pay_out(
                run(after(ledger, call), calls),
                job,
                milestone_at(ledger, job_id, milestone_index).amount,
            )
        }),
    ensures
        ({
            let job = ledger.jobs[job_id];
            let amount = milestone_at(ledger, job_id, milestone_index).amount;
            let call = Call::Submit {
                caller: freelancer,
                job_id,
                milestone_index,
                now: submitted_at,
            };
            let later = run(after(ledger, call), calls);
            let claiming = Call::Claim { caller: freelancer, job_id, milestone_index, now };
            &&& step(later, claiming) is Ok
            &&& payments(later, claiming) == settlement_transfers(later, job, amount)
            &&& milestone_at(after(later, claiming), job_id, milestone_index).status is Released
        }),
{
    lemma_review_waits(ledger, freelancer, job_id, milestone_index, submitted_at, calls);
}

/// A client can approve a submitted milestone at once and at any time until its review ends:
/// the approval is accepted, and it pays the milestone out.
pub proof fn law_approval_release(
    ledger: LedgerModel,
    freelancer: Seq<char>,
    job_id: u64,
    milestone_index: u32,
    submitted_at: u64,
    calls: Seq<Call>,
)
    requires
        submit(ledger, freelancer, job_id, milestone_index, submitted_at) is Ok,
        unanswered(calls, ledger.jobs[job_id], job_id, milestone_index, submitted_at),
        ({
            let job = ledger.jobs[job_id];
            let call = Call::Submit {
                caller: freelancer,
                job_id,
                milestone_index,
                now: submitted_at,
            };
            &&& keeps(after(ledger, call), calls, job_id)
            &&& can_pay_out(
                run(after(ledger, call), calls),
                job,
                milestone_at(ledger, job_id, milestone_index).amount,
            )
        }),
    ensures
        ({
            let job = ledger.jobs[job_id];
            let amount = milestone_at(ledger, job_id, milestone_index).amount;
            let call = Call::Submit {
                caller: freelancer,
                job_id,
                milestone_index,
                now: submitted_at,
            };
            let later = run(after(ledger, call), calls);
            let approving = Call::Approve { caller: job.client, job_id, milestone_index };
            &&& step(later, approving) is Ok
            &&& payments(later, approving) == settlement_transfers(later, job, amount)
            &&& milestone_at(after(later, approving), job_id, milestone_index).status is Approved
        }),
{
    lemma_review_waits(ledger, freelancer, job_id, milestone_index, submitted_at, calls);
}

/// A client can dispute a submitted milestone until its review ends: the dispute is accepted, it
/// pays nobody, and the milestone is disputed.
pub proof fn law_dispute_accepted(
    ledger: LedgerModel,
    freelancer: Seq<char>,
    job_id: u64,
    milestone_index: u32,
    submitted_at: u64,
    calls: Seq<Call>,
)
    requires
        submit(ledger, freelancer, job_id, milestone_index, submitted_at) is Ok,
        unanswered(calls, ledger.jobs[job_id], job_id, milestone_index, submitted_at),
        keeps(
            after(
                ledger,
                Call::Submit { caller: freelancer, job_id, milestone_index, now: submitted_at },
            ),
            calls,
            job_id,
        ),
    ensures
        ({
            let call = Call::Submit {
                caller: freelancer,
                job_id,
                milestone_index,
                now: submitted_at,
            };
            let later = run(after(ledger, call), calls);
            let disputing = Call::Dispute {
                caller: ledger.jobs[job_id].client,
                job_id,
                milestone_index,
            };
            &&& step(later, disputing) is Ok
            &&& payments(later, disputing) == Seq::<TransferModel>::empty()
            &&& milestone_at(after(later, disputing), job_id, milestone_index).status is Disputed
        }),
{
    lemma_review_waits(ledger, freelancer, job_id, milestone_index, submitted_at, calls);
}

/// Funds are not released early: a claim within 72 hours of the submission is refused, and an
/// accepted claim comes 72 hours or more after it.
pub proof fn law_no_early_release(
    ledger: LedgerModel,
    caller: Seq<char>,
    job_id: u64,
    milestone_index: u32,
    now: u64,
)
    ensures
        claim(ledger, caller, job_id, milestone_index, now) is Ok ==> now >= milestone_at(
            ledger,
            job_id,
            milestone_index,
        ).submitted_at + TIMEOUT_SECONDS,
        ({
            let milestone = milestone_at(ledger, job_id, milestone_index);
            &&& has_milestone(ledger, job_id, milestone_index)
            &&& ledger.jobs[job_id].is_active
            &&& ledger.jobs[job_id].freelancer == caller
            &&& milestone.status is Submitted
            &&& now < milestone.submitted_at + TIMEOUT_SECONDS <= u64::MAX
        }) ==> claim(ledger, caller, job_id, milestone_index, now) == Err::<
            ((), LedgerModel, EffectsModel),
            _,
        >(GigGuardError::TimeoutNotReached),
{
}

/// Only the parties operate on a job: an accepted submission or claim is made by the job's
/// freelancer, an accepted approval or dispute by its client.
pub proof fn law_only_the_parties(ledger: LedgerModel, call: Call)
    requires
        step(ledger, call) is Ok,
    ensures
        match call {
            Call::Submit { caller, job_id, .. } => ledger.jobs.contains_key(job_id) && caller
                == ledger.jobs[job_id].freelancer,
            Call::Claim { caller, job_id, .. } => ledger.jobs.contains_key(job_id) && caller
                == ledger.jobs[job_id].freelancer,
            Call::Approve { caller, job_id, .. } => ledger.jobs.contains_key(job_id) && caller
                == ledger.jobs[job_id].client,
            Call::Dispute { caller, job_id, .. } => ledger.jobs.contains_key(job_id) && caller
                == ledger.jobs[job_id].client,
            _ => true,
        },
{
}

// ---------------------------------------------------------------------------------------------
// What each milestone operation decides
// ---------------------------------------------------------------------------------------------
/// A submission is accepted exactly if the job is stored and active, the caller is its
/// freelancer, and the milestone is one of the job's and pending; the other milestones play no
/// part. Otherwise it is refused for the first of these that does not hold.
pub proof fn law_submission_decided(
    ledger: LedgerModel,
    caller: Seq<char>,
    job_id: u64,
    milestone_index: u32,
    now: u64,
)
    ensures
        ({
            let outcome = submit(ledger, caller, job_id, milestone_index, now);
            let job = ledger.jobs[job_id];
            let stored = ledger.jobs.contains_key(job_id);
            let active = stored && job.is_active;
            let by_party = active && caller == job.freelancer;
            let valid = by_party && milestone_index < job.milestones.len();
            let ready = valid && job.milestones[milestone_index as int].status is Pending;
            &&& outcome is Ok <==> ready
            &&& (outcome matches Err(GigGuardError::JobNotFound)) <==> !stored
            &&& (outcome matches Err(GigGuardError::JobNotActive)) <==> stored && !active
            &&& (outcome matches Err(GigGuardError::NotTheFreelancer)) <==> active && !by_party
            &&& (outcome matches Err(GigGuardError::InvalidMilestoneIndex)) <==> by_party && !valid
            &&& (outcome matches Err(GigGuardError::NotPending)) <==> valid && !ready
        }),
{
}

/// A dispute is accepted exactly if the job is stored and active, the caller is its client, and
/// the milestone is one of the job's and submitted. Otherwise it is refused for the first of these
/// that does not hold.
pub proof fn law_dispute_decided(
    ledger: LedgerModel,
    caller: Seq<char>,
    job_id: u64,
    milestone_index: u32,
)
    ensures
        ({
            let outcome = dispute(ledger, caller, job_id, milestone_index);
            let job = ledger.jobs[job_id];
            let stored = ledger.jobs.contains_key(job_id);
            let active = stored && job.is_active;
            let by_party = active && caller == job.client;
            let valid = by_party && milestone_index < job.milestones.len();
            let ready = valid && job.milestones[milestone_index as int].status is Submitted;
            &&& outcome is Ok <==> ready
            &&& (outcome matches Err(GigGuardError::JobNotFound)) <==> !stored
            &&& (outcome matches Err(GigGuardError::JobNotActive)) <==> stored && !active
            &&& (outcome matches Err(GigGuardError::NotTheClient)) <==> active && !by_party
            &&& (outcome matches Err(GigGuardError::InvalidMilestoneIndex)) <==> by_party && !valid
            &&& (outcome matches Err(GigGuardError::NotDisputable)) <==> valid && !ready
        }),
{
}

/// An approval is accepted exactly if the job is stored and active, the caller is its client, the
/// milestone is one of the job's and submitted, amount times rate fits in an `i128`, and, where
/// this makes a fee of one unit or more, a fee collector is set. Otherwise it is refused for the
/// first of these that does not hold.
pub proof fn law_approval_decided(
    ledger: LedgerModel,
    caller: Seq<char>,
    job_id: u64,
    milestone_index: u32,
)
    ensures
        ({
            let outcome = approve(ledger, caller, job_id, milestone_index);
            let job = ledger.jobs[job_id];
            let milestone = job.milestones[milestone_index as int];
            let scaled = milestone.amount * job.fee_bps;
            let stored = ledger.jobs.contains_key(job_id);
            let active = stored && job.is_active;
            let by_party = active && caller == job.client;
            let valid = by_party && milestone_index < job.milestones.len();
            let ready = valid && milestone.status is Submitted;
            let fits = ready && i128::MIN <= scaled <= i128::MAX;
            let payable = fits && (scaled >= 10_000 ==> ledger.fee_collector is Some);
            &&& outcome is Ok <==> payable
            &&& (outcome matches Err(GigGuardError::JobNotFound)) <==> !stored
            &&& (outcome matches Err(GigGuardError::JobNotActive)) <==> stored && !active
            &&& (outcome matches Err(GigGuardError::NotTheClient)) <==> active && !by_party
            &&& (outcome matches Err(GigGuardError::InvalidMilestoneIndex)) <==> by_party && !valid
            &&& (outcome matches Err(GigGuardError::NotSubmitted)) <==> valid && !ready
            &&& (outcome matches Err(GigGuardError::FeeOverflow)) <==> ready && !fits
            &&& (outcome matches Err(GigGuardError::FeeCollectorNotSet)) <==> fits && !payable
        }),
{
    let job = ledger.jobs[job_id];
    lemma_scaled_sign(job.milestones[milestone_index as int].amount, job.fee_bps);
}

/// A claim is accepted exactly if the job is stored and active, the caller is its freelancer, the
/// milestone is one of the job's and submitted, the time is 72 hours (259,200 seconds) or more
/// after the submission, amount times rate fits in an `i128`, and, where this makes a fee of one
/// unit or more, a fee collector is set. Otherwise it is refused for the first of these that does
/// not hold; a deadline that a `u64` does not hold is a refusal of its own.
pub proof fn law_claim_decided(
    ledger: LedgerModel,
    caller: Seq<char>,
    job_id: u64,
    milestone_index: u32,
    now: u64,
)
    ensures
        ({
            let outcome = claim(ledger, caller, job_id, milestone_index, now);
            let job = ledger.jobs[job_id];
            let milestone = job.milestones[milestone_index as int];
            let scaled = milestone.amount * job.fee_bps;
            let stored = ledger.jobs.contains_key(job_id);
            let active = stored && job.is_active;
            let by_party = active && caller == job.freelancer;
            let valid = by_party && milestone_index < job.milestones.len();
            let ready = valid && milestone.status is Submitted;
            let datable = ready && milestone.submitted_at + 259_200 <= u64::MAX;
            let due = datable && now - milestone.submitted_at >= 259_200;
            let fits = due && i128::MIN <= scaled <= i128::MAX;
            let payable = fits && (scaled >= 10_000 ==> ledger.fee_collector is Some);
            &&& outcome is Ok <==> payable
            &&& (outcome matches Err(GigGuardError::JobNotFound)) <==> !stored
            &&& (outcome matches Err(GigGuardError::JobNotActive)) <==> stored && !active
            &&& (outcome matches Err(GigGuardError::NotTheFreelancer)) <==> active && !by_party
            &&& (outcome matches Err(GigGuardError::InvalidMilestoneIndex)) <==> by_party && !valid
            &&& (outcome matches Err(GigGuardError::NotClaimable)) <==> valid && !ready
            &&& (outcome matches Err(GigGuardError::DeadlineOverflow)) <==> ready && !datable
            &&& (outcome matches Err(GigGuardError::TimeoutNotReached)) <==> datable && !due
            &&& (outcome matches Err(GigGuardError::FeeOverflow)) <==> due && !fits
            &&& (outcome matches Err(GigGuardError::FeeCollectorNotSet)) <==> fits && !payable
        }),
{
    let job = ledger.jobs[job_id];
    lemma_scaled_sign(job.milestones[milestone_index as int].amount, job.fee_bps);
}

// ---------------------------------------------------------------------------------------------
// What each milestone operation leaves
// ---------------------------------------------------------------------------------------------
/// An accepted milestone operation touches one milestone of one job and nothing else: the address,
/// the fee collector, the counter, every other job, the terms of this job, every other milestone
/// of it, and the amount and description of the milestone itself are as they were. The entry to
/// store is this job's and no other.
pub proof fn law_operation_touches_one_milestone(
    ledger: LedgerModel,
    caller: Seq<char>,
    job_id: u64,
    milestone_index: u32,
    now: u64,
    outcome: Outcome<()>,
)
    requires
        outcome is Ok,
        outcome == submit(ledger, caller, job_id, milestone_index, now) || outcome == approve(
            ledger,
            caller,
            job_id,
            milestone_index,
        ) || outcome == claim(ledger, caller, job_id, milestone_index, now) || outcome == dispute(
            ledger,
            caller,
            job_id,
            milestone_index,
        ),
    ensures
        ({
            let next = outcome->Ok_0.1;
            let effects = outcome->Ok_0.2;
            let old_job = ledger.jobs[job_id];
            let next_job = next.jobs[job_id];
            let index = milestone_index as int;
            &&& next.address == ledger.address
            &&& next.fee_collector == ledger.fee_collector
            &&& next.job_count == ledger.job_count
            &&& next.jobs.dom() == ledger.jobs.dom()
            &&& forall|id: u64|
                id != job_id && ledger.jobs.contains_key(id) ==> #[trigger] next.jobs[id]
                    == ledger.jobs[id]
            &&& next_job.client == old_job.client
            &&& next_job.freelancer == old_job.freelancer
            &&& next_job.token == old_job.token
            &&& next_job.total_amount == old_job.total_amount
            &&& next_job.fee_bps == old_job.fee_bps
            &&& next_job.milestones.len() == old_job.milestones.len()
            &&& forall|i: int|
                0 <= i < old_job.milestones.len() && i != index
                    ==> #[trigger] next_job.milestones[i] == old_job.milestones[i]
            &&& next_job.milestones[index].amount == old_job.milestones[index].amount
            &&& next_job.milestones[index].description == old_job.milestones[index].description
            &&& effects.writes == seq![DataKey::Job(job_id)]
        }),
{
    assert(outcome->Ok_0.1.jobs.dom() =~= ledger.jobs.dom());
}

/// An accepted submission leaves the milestone submitted, at the time of the call; a dispute
/// leaves it disputed, an approval approved and a claim released, each with the time of submission
/// that it had. Submission and dispute pay nobody and leave the job active. Approval and claim
/// leave it active exactly if another of its milestones is neither approved nor released.
pub proof fn law_status_after_operation(
    ledger: LedgerModel,
    caller: Seq<char>,
    job_id: u64,
    milestone_index: u32,
    now: u64,
)
    ensures
        submit(ledger, caller, job_id, milestone_index, now) matches Ok((_, next, effects)) ==> {
            let milestone = next.jobs[job_id].milestones[milestone_index as int];
            &&& milestone.status is Submitted
            &&& milestone.submitted_at == now
            &&& next.jobs[job_id].is_active
            &&& effects.transfers.len() == 0
        },
        dispute(ledger, caller, job_id, milestone_index) matches Ok((_, next, effects)) ==> {
            let before = ledger.jobs[job_id].milestones[milestone_index as int];
            let milestone = next.jobs[job_id].milestones[milestone_index as int];
            &&& milestone.status is Disputed
            &&& milestone.submitted_at == before.submitted_at
            &&& next.jobs[job_id].is_active
            &&& effects.transfers.len() == 0
        },
        approve(ledger, caller, job_id, milestone_index) matches Ok((_, next, _)) ==> {
            let before = ledger.jobs[job_id].milestones;
            let milestone = next.jobs[job_id].milestones[milestone_index as int];
            &&& milestone.status is Approved
            &&& milestone.submitted_at == before[milestone_index as int].submitted_at
            &&& next.jobs[job_id].is_active <==> exists|i: int|
                0 <= i < before.len() && i != milestone_index && !((
                #[trigger] before[i]).status is Approved || before[i].status is Released)
        },
        claim(ledger, caller, job_id, milestone_index, now) matches Ok((_, next, _)) ==> {
            let before = ledger.jobs[job_id].milestones;
            let milestone = next.jobs[job_id].milestones[milestone_index as int];
            &&& milestone.status is Released
            &&& milestone.submitted_at == before[milestone_index as int].submitted_at
            &&& next.jobs[job_id].is_active <==> exists|i: int|
                0 <= i < before.len() && i != milestone_index && !((
                #[trigger] before[i]).status is Approved || before[i].status is Released)
        },
{
    let index = milestone_index as int;
    if let Ok((_, next, _)) = submit(ledger, caller, job_id, milestone_index, now) {
        assert(!is_paid(next.jobs[job_id].milestones[index].status));
    }
    if let Ok((_, next, _)) = dispute(ledger, caller, job_id, milestone_index) {
        assert(!is_paid(next.jobs[job_id].milestones[index].status));
    }
    if approve(ledger, caller, job_id, milestone_index) is Ok {
        let call = Call::Approve { caller, job_id, milestone_index };
        law_last_payment_completes(ledger, call, job_id, milestone_index);
    }
    if claim(ledger, caller, job_id, milestone_index, now) is Ok {
        let call = Call::Claim { caller, job_id, milestone_index, now };
        law_last_payment_completes(ledger, call, job_id, milestone_index);
    }
}

} // verus!
