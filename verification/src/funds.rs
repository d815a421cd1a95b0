//! What holds of the funds: how they are split, who is paid, and that the contract can always
//! pay what it owes.
use vstd::prelude::*;

use crate::entries::{
    law_created_job_is_found, law_creation_accepted, law_fee_collector_stays, lemma_without_last,
    without_initialize,
};
use crate::fees::{fee_amount, fee_computable, lemma_scaled_sign, FEE_BPS};
use crate::laws::{
    after, has_milestone, initialized_first, job_well_formed, keeps, law_approval_release,
    law_ids_not_reused, law_terms_kept, law_timeout_release, law_untouched_milestone_waits,
    law_well_formed_always, law_well_formed_kept, milestone_at, payments, run, step, target,
    unanswered, well_formed, Call,
};
use crate::model::{
    approve, claim, create, is_paid, job_count, lemma_amounts_accepted, new_job,
    settlement_transfers, submit, total, with_milestone, LedgerModel, Outcome,
};
use crate::types::{JobModel, MilestoneModel, TransferModel};

verus! {

// ---------------------------------------------------------------------------------------------
// The split
// ---------------------------------------------------------------------------------------------
/// The platform's fee on a positive amount is 0.5% of it, rounded down: it is not negative, the
/// rest is positive, and the two add up to the amount. The fee is zero exactly on amounts below
/// 200.
pub proof fn law_fee_is_half_a_percent(amount: i128)
    requires
        amount > 0,
    ensures
        fee_amount(amount, FEE_BPS) == amount as int / 200,
        0 <= fee_amount(amount, FEE_BPS) < amount,
        200 * fee_amount(amount, FEE_BPS) <= amount < 200 * (fee_amount(amount, FEE_BPS) + 1),
        fee_amount(amount, FEE_BPS) == 0 <==> amount < 200,
{
}

/// The fee is the part of `amount` that `fee_bps` ten-thousandths make, with any rest that is less
/// than one unit left to the freelancer: rounded down on positive amounts, up on negative ones.
pub proof fn law_fee_is_the_rated_part(amount: i128, fee_bps: u32)
    ensures
        ({
            let fee = fee_amount(amount, fee_bps);
            &&& amount >= 0 ==> 10_000 * fee <= amount * fee_bps < 10_000 * (fee + 1)
            &&& amount <= 0 ==> 10_000 * (fee - 1) < amount * fee_bps <= 10_000 * fee
        }),
{
    lemma_scaled_sign(amount, fee_bps);
}

/// The fee can be computed exactly on the amounts within an `i128`'s range divided by the rate: at
/// 50 basis points, on every positive amount up to a fiftieth of the largest.
pub proof fn law_fee_computable(amount: i128, fee_bps: u32)
    ensures
        fee_bps == 0 ==> fee_computable(amount, fee_bps),
        fee_bps > 0 ==> (fee_computable(amount, fee_bps) <==> -((i128::MAX + 1) / (fee_bps as int))
            <= amount <= i128::MAX as int / (fee_bps as int)),
        amount > 0 && fee_bps == 50 ==> (fee_computable(amount, fee_bps) <==> amount
            <= i128::MAX as int / 50),
{
    lemma_scaled_sign(amount, fee_bps);
    if fee_bps > 0 {
        lemma_product_within(amount as int, fee_bps as int, i128::MAX as int);
        lemma_product_within(-amount, fee_bps as int, i128::MAX + 1);
        // The least amount is not positive.
        lemma_product_within(0, fee_bps as int, i128::MAX + 1);
    }
}

/// A product is within a bound exactly if the factor is within the quotient.
proof fn lemma_product_within(factor: int, rate: int, bound: int)
    requires
        rate > 0,
    ensures
        factor * rate <= bound <==> factor <= bound / rate,
{
    let quotient = bound / rate;
    assert(quotient * rate <= bound < quotient * rate + rate) by (nonlinear_arith)
        requires
            rate > 0,
            quotient == bound / rate,
    ;
    if factor <= quotient {
        assert(factor * rate <= quotient * rate) by (nonlinear_arith)
            requires
                rate > 0,
                factor <= quotient,
        ;
    } else {
        assert(factor * rate >= quotient * rate + rate) by (nonlinear_arith)
            requires
                rate > 0,
                factor >= quotient + 1,
        ;
    }
}

/// The payments of a settlement add up to the milestone's amount, unless the fee is negative,
/// which takes a negative amount.
pub proof fn law_settlement_pays_the_amount(ledger: LedgerModel, job: JobModel, amount: i128)
    requires
        fee_computable(amount, job.fee_bps),
        fee_amount(amount, job.fee_bps) >= 0,
    ensures
        sum_of(settlement_transfers(ledger, job, amount)) == amount,
{
    lemma_fee_fits(amount, job.fee_bps);
    reveal_with_fuel(sum_of, 3);
    let transfers = settlement_transfers(ledger, job, amount);
    if transfers.len() == 2 {
        assert(transfers.drop_last() =~= seq![transfers[0]]);
    }
}

/// What the payments add up to.
pub open spec fn sum_of(transfers: Seq<TransferModel>) -> int
    decreases transfers.len(),
{
    if transfers.len() == 0 {
        0
    } else {
        sum_of(transfers.drop_last()) + transfers.last().amount
    }
}

/// Fee and payout are within an `i128`.
proof fn lemma_fee_fits(amount: i128, fee_bps: u32)
    requires
        fee_computable(amount, fee_bps),
    ensures
        i128::MIN <= fee_amount(amount, fee_bps) <= i128::MAX,
        i128::MIN <= amount - fee_amount(amount, fee_bps) <= i128::MAX,
{
    lemma_scaled_sign(amount, fee_bps);
}

// ---------------------------------------------------------------------------------------------
// Who pays and who is paid
// ---------------------------------------------------------------------------------------------
/// Whether the payments are those of a job's settlement: all are made by the contract in the
/// job's token, to the job's freelancer or to the fee collector.
pub open spec fn pays_the_payees(
    ledger: LedgerModel,
    job: JobModel,
    transfers: Seq<TransferModel>,
) -> bool {
    forall|i: int|
        0 <= i < transfers.len() ==> {
            let transfer = #[trigger] transfers[i];
            &&& transfer.token == job.token
            &&& transfer.from == ledger.address
            &&& transfer.to == job.freelancer || Some(transfer.to) == ledger.fee_collector
        }
}

/// Funds are locked: they come in on creation, the whole total at once and from the client, and
/// they go out only when a submitted milestone of a stored job is approved or claimed, to the
/// job's freelancer and the fee collector. No other call pays anybody.
pub proof fn law_funds_locked(ledger: LedgerModel, call: Call)
    requires
        step(ledger, call) is Ok,
    ensures
        match call {
            Call::CreateJob { client, token, amounts, .. } => {
                &&& 0 < total(amounts) <= i128::MAX
                &&& payments(ledger, call) == seq![
                    TransferModel {
                        token,
                        from: client,
                        to: ledger.address,
                        amount: total(amounts) as i128,
                    },
                ]
            },
            Call::Approve { job_id, milestone_index, .. } => {
                &&& has_milestone(ledger, job_id, milestone_index)
                &&& milestone_at(ledger, job_id, milestone_index).status is Submitted
                &&& pays_the_payees(ledger, ledger.jobs[job_id], payments(ledger, call))
            },
            Call::Claim { job_id, milestone_index, .. } => {
                &&& has_milestone(ledger, job_id, milestone_index)
                &&& milestone_at(ledger, job_id, milestone_index).status is Submitted
                &&& pays_the_payees(ledger, ledger.jobs[job_id], payments(ledger, call))
            },
            _ => payments(ledger, call) == Seq::<TransferModel>::empty(),
        },
{
    if let Call::CreateJob { amounts, .. } = call {
        lemma_amounts_accepted(amounts);
        lemma_amounts_accepted(amounts.drop_last());
        assert(amounts[amounts.len() - 1] > 0);
    }
}

/// A milestone is paid out whole: the payments of an accepted approval or claim add up to the
/// milestone's amount, unless the fee is negative, which takes a negative amount: no milestone in
/// well-formed storage has one.
pub proof fn law_whole_amount_released(
    ledger: LedgerModel,
    call: Call,
    job_id: u64,
    milestone_index: u32,
)
    requires
        call is Approve || call is Claim,
        target(call) == Some((job_id, milestone_index)),
        step(ledger, call) is Ok,
        fee_amount(
            milestone_at(ledger, job_id, milestone_index).amount,
            ledger.jobs[job_id].fee_bps,
        ) >= 0,
    ensures
        sum_of(payments(ledger, call)) == milestone_at(ledger, job_id, milestone_index).amount,
{
    let amount = milestone_at(ledger, job_id, milestone_index).amount;
    law_settlement_pays_the_amount(ledger, ledger.jobs[job_id], amount);
}

/// An accepted approval or claim pays the freelancer first, and the fee collector second where
/// there is a fee; there is no third payment. The freelancer gets the amount less the fee, the fee
/// collector the fee, which is the part of the amount that the job's rate makes. All is paid by
/// the contract, in the job's token.
pub proof fn law_payout_by_payee(
    ledger: LedgerModel,
    caller: Seq<char>,
    job_id: u64,
    milestone_index: u32,
    now: u64,
    outcome: Outcome<()>,
)
    requires
        outcome is Ok,
        outcome == approve(ledger, caller, job_id, milestone_index) || outcome == claim(
            ledger,
            caller,
            job_id,
            milestone_index,
            now,
        ),
    ensures
        ({
            let job = ledger.jobs[job_id];
            let amount = job.milestones[milestone_index as int].amount;
            let paid = outcome->Ok_0.2.transfers;
            let fee = amount - paid[0].amount;
            &&& amount >= 0 ==> 10_000 * fee <= amount * job.fee_bps < 10_000 * (fee + 1)
            &&& amount <= 0 ==> 10_000 * (fee - 1) < amount * job.fee_bps <= 10_000 * fee
            &&& paid.len() == if fee > 0 {
                2nat
            } else {
                1nat
            }
            &&& paid[0].to == job.freelancer
            &&& fee > 0 ==> Some(paid[1].to) == ledger.fee_collector && paid[1].amount == fee
            &&& forall|i: int|
                0 <= i < paid.len() ==> (#[trigger] paid[i]).from == ledger.address
                    && paid[i].token == job.token
        }),
{
    let job = ledger.jobs[job_id];
    let amount = job.milestones[milestone_index as int].amount;
    lemma_fee_fits(amount, job.fee_bps);
    law_fee_is_the_rated_part(amount, job.fee_bps);
}

/// At the platform's rate, an accepted approval or claim of a positive amount pays the freelancer
/// the amount less a two-hundredth, rounded down, and pays that two-hundredth to the fee collector
/// exactly if it is one unit or more.
pub proof fn law_platform_payout(
    ledger: LedgerModel,
    caller: Seq<char>,
    job_id: u64,
    milestone_index: u32,
    now: u64,
    outcome: Outcome<()>,
)
    requires
        outcome is Ok,
        outcome == approve(ledger, caller, job_id, milestone_index) || outcome == claim(
            ledger,
            caller,
            job_id,
            milestone_index,
            now,
        ),
        ledger.jobs[job_id].fee_bps == 50,
        ledger.jobs[job_id].milestones[milestone_index as int].amount > 0,
    ensures
        ({
            let job = ledger.jobs[job_id];
            let amount = job.milestones[milestone_index as int].amount as int;
            let paid = outcome->Ok_0.2.transfers;
            &&& paid[0].to == job.freelancer
            &&& paid[0].amount == amount - amount / 200
            &&& amount / 200 == 0 ==> paid.len() == 1
            &&& amount / 200 > 0 ==> {
                &&& paid.len() == 2
                &&& Some(paid[1].to) == ledger.fee_collector
                &&& paid[1].amount == amount / 200
            }
        }),
{
    law_payout_by_payee(ledger, caller, job_id, milestone_index, now, outcome);
}

/// Approval and claim of the same milestone pay the same: where both are accepted, it makes no
/// difference to the payees whether the client answered.
pub proof fn law_claim_pays_as_approval(
    ledger: LedgerModel,
    client: Seq<char>,
    freelancer: Seq<char>,
    job_id: u64,
    milestone_index: u32,
    now: u64,
)
    requires
        approve(ledger, client, job_id, milestone_index) is Ok,
        claim(ledger, freelancer, job_id, milestone_index, now) is Ok,
    ensures
        approve(ledger, client, job_id, milestone_index)->Ok_0.2.transfers == claim(
            ledger,
            freelancer,
            job_id,
            milestone_index,
            now,
        )->Ok_0.2.transfers,
{
}

// ---------------------------------------------------------------------------------------------
// Delivered work is paid
// ---------------------------------------------------------------------------------------------
/// The freelancer is paid for a submitted milestone that the client does not answer. Let the
/// milestone be submitted at time `submitted_at`, at 50 basis points and for a positive amount of
/// at most a fiftieth of the largest `i128`, and let any calls follow, of anybody, that do not end
/// its review. Once a fee collector is set, the freelancer's claim is accepted from 72 hours after
/// the submission on. It pays the freelancer the amount less a two-hundredth, and the rest to the
/// fee collector.
pub proof fn law_unanswered_work_is_paid(
    ledger: LedgerModel,
    freelancer: Seq<char>,
    job_id: u64,
    milestone_index: u32,
    submitted_at: u64,
    calls: Seq<Call>,
    now: u64,
)
    requires
        submit(ledger, freelancer, job_id, milestone_index, submitted_at) is Ok,
        unanswered(calls, ledger.jobs[job_id], job_id, milestone_index, submitted_at),
        now - submitted_at >= 259_200,
        ledger.jobs[job_id].fee_bps == 50,
        0 < milestone_at(ledger, job_id, milestone_index).amount <= i128::MAX as int / 50,
        ({
            let call = Call::Submit {
                caller: freelancer,
                job_id,
                milestone_index,
                now: submitted_at,
            };
            &&& keeps(after(ledger, call), calls, job_id)
            &&& run(after(ledger, call), calls).fee_collector is Some
        }),
    ensures
        ({
            let amount = milestone_at(ledger, job_id, milestone_index).amount as int;
            let call = Call::Submit {
                caller: freelancer,
                job_id,
                milestone_index,
                now: submitted_at,
            };
            let later = run(after(ledger, call), calls);
            let outcome = claim(later, freelancer, job_id, milestone_index, now);
            let paid = outcome->Ok_0.2.transfers;
            &&& outcome is Ok
            &&& paid[0].to == freelancer
            &&& paid[0].amount == amount - amount / 200
            &&& amount / 200 == 0 ==> paid.len() == 1
            &&& amount / 200 > 0 ==> {
                &&& paid.len() == 2
                &&& Some(paid[1].to) == later.fee_collector
                &&& paid[1].amount == amount / 200
            }
        }),
{
    let amount = milestone_at(ledger, job_id, milestone_index).amount;
    let call = Call::Submit { caller: freelancer, job_id, milestone_index, now: submitted_at };
    let later = run(after(ledger, call), calls);
    law_fee_computable(amount, 50);
    law_timeout_release(ledger, freelancer, job_id, milestone_index, submitted_at, calls, now);
    law_terms_kept(after(ledger, call), calls, job_id);
    let outcome = claim(later, freelancer, job_id, milestone_index, now);
    law_platform_payout(later, freelancer, job_id, milestone_index, now, outcome);
}

/// A client can always approve such a milestone, until its review ends: the approval is accepted
/// and pays the same.
pub proof fn law_approved_work_is_paid(
    ledger: LedgerModel,
    freelancer: Seq<char>,
    job_id: u64,
    milestone_index: u32,
    submitted_at: u64,
    calls: Seq<Call>,
)
    requires
        submit(ledger, freelancer, job_id, milestone_index, submitted_at) is Ok,
        unanswered(calls, ledger.jobs[job_id], job_id, milestone_index, submitted_at),
        ledger.jobs[job_id].fee_bps == 50,
        0 < milestone_at(ledger, job_id, milestone_index).amount <= i128::MAX as int / 50,
        ({
            let call = Call::Submit {
                caller: freelancer,
                job_id,
                milestone_index,
                now: submitted_at,
            };
            &&& keeps(after(ledger, call), calls, job_id)
            &&& run(after(ledger, call), calls).fee_collector is Some
        }),
    ensures
        ({
            let amount = milestone_at(ledger, job_id, milestone_index).amount as int;
            let call = Call::Submit {
                caller: freelancer,
                job_id,
                milestone_index,
                now: submitted_at,
            };
            let later = run(after(ledger, call), calls);
            let outcome = approve(later, ledger.jobs[job_id].client, job_id, milestone_index);
            let paid = outcome->Ok_0.2.transfers;
            &&& outcome is Ok
            &&& paid[0].to == freelancer
            &&& paid[0].amount == amount - amount / 200
            &&& amount / 200 == 0 ==> paid.len() == 1
            &&& amount / 200 > 0 ==> {
                &&& paid.len() == 2
                &&& Some(paid[1].to) == later.fee_collector
                &&& paid[1].amount == amount / 200
            }
        }),
{
    let client = ledger.jobs[job_id].client;
    let amount = milestone_at(ledger, job_id, milestone_index).amount;
    let call = Call::Submit { caller: freelancer, job_id, milestone_index, now: submitted_at };
    let later = run(after(ledger, call), calls);
    law_fee_computable(amount, 50);
    law_approval_release(ledger, freelancer, job_id, milestone_index, submitted_at, calls);
    law_terms_kept(after(ledger, call), calls, job_id);
    let outcome = approve(later, client, job_id, milestone_index);
    law_platform_payout(later, client, job_id, milestone_index, 0, outcome);
}

/// Who deposits for a job cannot keep the freelancer from being paid for it. Let a job be created
/// while a fee collector is set, and let any calls follow but initialization, of anybody, none of
/// them on the milestone in question. The freelancer who was named on creation can then submit the
/// milestone. Let again any calls follow but initialization, among them no approval or dispute of
/// the milestone by the client. From 72 hours after the submission on, the freelancer's claim is
/// accepted, unless an earlier such claim was. It pays the freelancer the amount that was given on
/// creation less a two-hundredth, and the rest to the fee collector, in the token that was
/// deposited.
pub proof fn law_delivered_work_is_paid(
    ledger: LedgerModel,
    client: Seq<char>,
    freelancer: Seq<char>,
    token: Seq<char>,
    amounts: Seq<i128>,
    descriptions: Seq<Seq<u8>>,
    fee_collector: Seq<char>,
    milestone_index: u32,
    before: Seq<Call>,
    submitted_at: u64,
    review: Seq<Call>,
    now: u64,
)
    requires
        well_formed(ledger),
        ledger.fee_collector == Some(fee_collector),
        create(ledger, client, freelancer, token, amounts, descriptions) is Ok,
        milestone_index < amounts.len(),
        amounts[milestone_index as int] <= i128::MAX as int / 50,
        without_initialize(before),
        forall|i: int|
            0 <= i < before.len() ==> target(#[trigger] before[i]) != Some(
                (job_count(ledger), milestone_index),
            ),
        without_initialize(review),
        ({
            let created = create(ledger, client, freelancer, token, amounts, descriptions)->Ok_0;
            let ready = run(created.1, before);
            unanswered(review, ready.jobs[created.0], created.0, milestone_index, submitted_at)
        }),
        now - submitted_at >= 259_200,
    ensures
        ({
            let created = create(ledger, client, freelancer, token, amounts, descriptions)->Ok_0;
            let job_id = created.0;
            let amount = amounts[milestone_index as int] as int;
            let ready = run(created.1, before);
            let submitted = submit(ready, freelancer, job_id, milestone_index, submitted_at);
            let later = run(submitted->Ok_0.1, review);
            let claimed = claim(later, freelancer, job_id, milestone_index, now);
            let paid = claimed->Ok_0.2.transfers;
            &&& submitted is Ok
            &&& claimed is Ok
            &&& paid[0].to == freelancer
            &&& paid[0].amount == amount - amount / 200
            &&& paid.len() == if amount < 200 {
                1nat
            } else {
                2nat
            }
            &&& amount >= 200 ==> paid[1].to == fee_collector && paid[1].amount == amount / 200
            &&& forall|i: int|
                0 <= i < paid.len() ==> (#[trigger] paid[i]).token == token && paid[i].from
                    == ledger.address
        }),
{
    let creating = Call::CreateJob { client, freelancer, token, amounts, descriptions };
    let created = after(ledger, creating);
    let job_id = job_count(ledger);
    let ready = run(created, before);
    let submitting = Call::Submit {
        caller: freelancer,
        job_id,
        milestone_index,
        now: submitted_at,
    };
    let submitted = after(ready, submitting);
    let later = run(submitted, review);
    law_created_job_is_found(
        ledger,
        client,
        freelancer,
        token,
        amounts,
        descriptions,
        job_id,
    );
    law_creation_accepted(ledger, client, freelancer, token, amounts, descriptions);
    law_well_formed_kept(ledger, creating);
    lemma_initialized_first(created, before);
    law_ids_not_reused(created, before, job_id);
    law_untouched_milestone_waits(created, before, job_id, milestone_index);
    law_terms_kept(created, before, job_id);
    law_fee_collector_stays(created, before);
    law_well_formed_always(created, before);

    law_well_formed_kept(ready, submitting);
    lemma_initialized_first(submitted, review);
    law_ids_not_reused(submitted, review, job_id);
    law_fee_collector_stays(submitted, review);
    law_terms_kept(submitted, review, job_id);
    law_unanswered_work_is_paid(
        ready,
        freelancer,
        job_id,
        milestone_index,
        submitted_at,
        review,
        now,
    );
    let claimed = claim(later, freelancer, job_id, milestone_index, now);
    law_payout_by_payee(later, freelancer, job_id, milestone_index, now, claimed);
}

/// Calls without initialization initialize only before the first job.
proof fn lemma_initialized_first(ledger: LedgerModel, calls: Seq<Call>)
    requires
        without_initialize(calls),
    ensures
        initialized_first(ledger, calls),
    decreases calls.len(),
{
    if calls.len() > 0 {
        lemma_without_last(calls);
        lemma_initialized_first(ledger, calls.drop_last());
        assert(!(calls[calls.len() - 1] is Initialize));
    }
}

// ---------------------------------------------------------------------------------------------
// The contract can pay what it owes
// ---------------------------------------------------------------------------------------------
/// What a milestone still has in escrow: its amount, until it is paid out.
pub open spec fn held_for(milestone: MilestoneModel) -> int {
    if is_paid(milestone.status) {
        0
    } else {
        milestone.amount as int
    }
}

/// What the milestones still have in escrow.
pub open spec fn held_for_all(milestones: Seq<MilestoneModel>) -> int
    decreases milestones.len(),
{
    if milestones.len() == 0 {
        0
    } else {
        held_for_all(milestones.drop_last()) + held_for(milestones.last())
    }
}

/// What a job, if there is one under this ID and it is paid in `token`, has in escrow.
pub open spec fn held_by_job(jobs: Map<u64, JobModel>, job_id: u64, token: Seq<char>) -> int {
    if jobs.contains_key(job_id) && jobs[job_id].token == token {
        held_for_all(jobs[job_id].milestones)
    } else {
        0
    }
}

/// What the jobs with the first `n` IDs have in escrow, in `token`.
pub open spec fn held_below(jobs: Map<u64, JobModel>, n: nat, token: Seq<char>) -> int
    decreases n,
{
    if n == 0 {
        0
    } else {
        held_below(jobs, (n - 1) as nat, token) + held_by_job(jobs, (n - 1) as u64, token)
    }
}

/// What all jobs have in escrow, in `token`.
pub open spec fn in_escrow(ledger: LedgerModel, token: Seq<char>) -> int {
    held_below(ledger.jobs, job_count(ledger) as nat, token)
}

/// What the payments add to the balance that `account` has in `token`.
pub open spec fn inflow(
    transfers: Seq<TransferModel>,
    account: Seq<char>,
    token: Seq<char>,
) -> int
    decreases transfers.len(),
{
    if transfers.len() == 0 {
        0
    } else {
        let last = transfers.last();
        inflow(transfers.drop_last(), account, token) + if last.token != token {
            0
        } else {
            (if last.to == account {
                last.amount as int
            } else {
                0
            }) - (if last.from == account {
                last.amount as int
            } else {
                0
            })
        }
    }
}

/// Whether the contract is on both sides of a payment that the call makes: as the client of a
/// new job, or as the one who is paid.
pub open spec fn pays_itself(ledger: LedgerModel, call: Call) -> bool {
    exists|i: int|
        0 <= i < payments(ledger, call).len() && (#[trigger] payments(ledger, call)[i]).from
            == ledger.address && payments(ledger, call)[i].to == ledger.address
}

/// Whether the call creates a job of which the contract itself is the client.
pub open spec fn own_client(ledger: LedgerModel, call: Call) -> bool {
    &&& step(ledger, call) is Ok
    &&& call matches Call::CreateJob { client, .. }
    &&& client == ledger.address
}

/// Every call adds to the contract's balance what it adds to the escrow, in every token. Where
/// the contract itself is among those who are paid out, its balance falls by less; only a job of
/// which it is the client itself would bring in less than is owed.
pub proof fn law_balance_follows_escrow(ledger: LedgerModel, call: Call, token: Seq<char>)
    requires
        well_formed(ledger),
        call is Initialize ==> ledger.jobs == Map::<u64, JobModel>::empty(),
        !own_client(ledger, call),
    ensures
        inflow(payments(ledger, call), ledger.address, token) >= in_escrow(
            after(ledger, call),
            token,
        ) - in_escrow(ledger, token),
        !pays_itself(ledger, call) ==> inflow(payments(ledger, call), ledger.address, token)
            == in_escrow(after(ledger, call), token) - in_escrow(ledger, token),
{
    let next = after(ledger, call);
    let n = job_count(ledger) as nat;
    let paid = payments(ledger, call);
    let accepted = step(ledger, call) is Ok;
    reveal_with_fuel(inflow, 3);
    match call {
        Call::Initialize { .. } => {
            lemma_held_by_none(ledger.jobs, n, token);
        },
        Call::CreateJob { client, freelancer, token: paid_in, amounts, descriptions } => {
            if step(ledger, call) is Ok {
                let job = new_job(client, freelancer, paid_in, amounts, descriptions);
                lemma_amounts_accepted(amounts);
                lemma_held_elsewhere(ledger.jobs, next.jobs, n as u64, n, token);
                lemma_held_when_new(job.milestones, amounts);
                assert(paid.drop_last() =~= seq![]);
                assert(held_below(next.jobs, n + 1, token) == held_below(next.jobs, n, token)
                    + held_by_job(next.jobs, n as u64, token));
                assert(!ledger.jobs.contains_key(n as u64));
            }
        },
        Call::Submit { job_id, milestone_index, .. } => {
            lemma_held_after(ledger, next, job_id, milestone_index, token, accepted);
        },
        Call::Dispute { job_id, milestone_index, .. } => {
            lemma_held_after(ledger, next, job_id, milestone_index, token, accepted);
        },
        Call::Approve { job_id, milestone_index, .. } => {
            lemma_held_after(ledger, next, job_id, milestone_index, token, accepted);
            if step(ledger, call) is Ok {
                lemma_inflow_of_settlement(ledger, call, job_id, milestone_index, token);
            }
        },
        Call::Claim { job_id, milestone_index, .. } => {
            lemma_held_after(ledger, next, job_id, milestone_index, token, accepted);
            if step(ledger, call) is Ok {
                lemma_inflow_of_settlement(ledger, call, job_id, milestone_index, token);
            }
        },
    }
}

proof fn lemma_held_by_none(jobs: Map<u64, JobModel>, n: nat, token: Seq<char>)
    requires
        jobs == Map::<u64, JobModel>::empty(),
    ensures
        held_below(jobs, n, token) == 0,
    decreases n,
{
    if n > 0 {
        lemma_held_by_none(jobs, (n - 1) as nat, token);
    }
}

/// A job that is not among the first `n` does not count.
proof fn lemma_held_elsewhere(
    before: Map<u64, JobModel>,
    now: Map<u64, JobModel>,
    job_id: u64,
    n: nat,
    token: Seq<char>,
)
    requires
        n <= job_id,
        now == before.insert(job_id, now[job_id]),
    ensures
        held_below(now, n, token) == held_below(before, n, token),
    decreases n,
{
    if n > 0 {
        lemma_held_elsewhere(before, now, job_id, (n - 1) as nat, token);
    }
}

/// A change of one job changes the sum by what that job changes.
proof fn lemma_held_with(
    before: Map<u64, JobModel>,
    now: Map<u64, JobModel>,
    job_id: u64,
    n: nat,
    token: Seq<char>,
)
    requires
        job_id < n <= u64::MAX,
        now == before.insert(job_id, now[job_id]),
    ensures
        held_below(now, n, token) - held_below(before, n, token) == held_by_job(
            now,
            job_id,
            token,
        ) - held_by_job(before, job_id, token),
    decreases n,
{
    if n - 1 == job_id {
        lemma_held_elsewhere(before, now, job_id, (n - 1) as nat, token);
    } else {
        lemma_held_with(before, now, job_id, (n - 1) as nat, token);
    }
}

/// A change of one milestone changes the sum by what that milestone changes.
proof fn lemma_held_update(milestones: Seq<MilestoneModel>, i: int, milestone: MilestoneModel)
    requires
        0 <= i < milestones.len(),
    ensures
        held_for_all(milestones.update(i, milestone)) - held_for_all(milestones) == held_for(
            milestone,
        ) - held_for(milestones[i]),
    decreases milestones.len(),
{
    let updated = milestones.update(i, milestone);
    if i == milestones.len() - 1 {
        assert(updated.drop_last() =~= milestones.drop_last());
    } else {
        assert(updated.drop_last() =~= milestones.drop_last().update(i, milestone));
        lemma_held_update(milestones.drop_last(), i, milestone);
    }
}

/// A new job has its total in escrow.
proof fn lemma_held_when_new(milestones: Seq<MilestoneModel>, amounts: Seq<i128>)
    requires
        milestones.len() == amounts.len(),
        forall|i: int|
            0 <= i < milestones.len() ==> (#[trigger] milestones[i]).amount == amounts[i]
                && milestones[i].status is Pending,
    ensures
        held_for_all(milestones) == total(amounts),
    decreases milestones.len(),
{
    if milestones.len() > 0 {
        assert forall|i: int| 0 <= i < milestones.drop_last().len() implies (
        #[trigger] milestones.drop_last()[i]).amount == amounts.drop_last()[i]
            && milestones.drop_last()[i].status is Pending by {
            assert(milestones[i].amount == amounts[i]);
        }
        lemma_held_when_new(milestones.drop_last(), amounts.drop_last());
    }
}

/// The escrow after a milestone operation.
proof fn lemma_held_after(
    ledger: LedgerModel,
    next: LedgerModel,
    job_id: u64,
    milestone_index: u32,
    token: Seq<char>,
    accepted: bool,
)
    requires
        well_formed(ledger),
        !accepted ==> next == ledger,
        accepted ==> ledger.jobs.contains_key(job_id) && milestone_index
            < ledger.jobs[job_id].milestones.len() && next == with_milestone(
            ledger,
            job_id,
            milestone_index,
            milestone_at(next, job_id, milestone_index),
        ),
    ensures
        accepted ==> in_escrow(next, token) - in_escrow(ledger, token) == if token
            == ledger.jobs[job_id].token {
            held_for(milestone_at(next, job_id, milestone_index)) - held_for(
                milestone_at(ledger, job_id, milestone_index),
            )
        } else {
            0
        },
{
    if accepted {
        let n = job_count(ledger) as nat;
        lemma_held_with(ledger.jobs, next.jobs, job_id, n, token);
        lemma_held_update(
            ledger.jobs[job_id].milestones,
            milestone_index as int,
            milestone_at(next, job_id, milestone_index),
        );
    }
}

/// A settlement takes the milestone's amount from the contract's balance, or less where the
/// contract is among the payees.
proof fn lemma_inflow_of_settlement(
    ledger: LedgerModel,
    call: Call,
    job_id: u64,
    milestone_index: u32,
    token: Seq<char>,
)
    requires
        well_formed(ledger),
        ledger.jobs.contains_key(job_id),
        milestone_index < ledger.jobs[job_id].milestones.len(),
        fee_computable(
            milestone_at(ledger, job_id, milestone_index).amount,
            ledger.jobs[job_id].fee_bps,
        ),
        payments(ledger, call) == settlement_transfers(
            ledger,
            ledger.jobs[job_id],
            milestone_at(ledger, job_id, milestone_index).amount,
        ),
    ensures
        ({
            let amount = milestone_at(ledger, job_id, milestone_index).amount;
            let flow = inflow(payments(ledger, call), ledger.address, token);
            if ledger.jobs[job_id].token == token {
                &&& flow >= -amount
                &&& !pays_itself(ledger, call) ==> flow == -amount
            } else {
                flow == 0
            }
        }),
{
    let job = ledger.jobs[job_id];
    let amount = milestone_at(ledger, job_id, milestone_index).amount;
    let paid = payments(ledger, call);
    assert(job_well_formed(job));
    assert(job.milestones[milestone_index as int].amount > 0);
    law_fee_is_half_a_percent(amount);
    reveal_with_fuel(inflow, 3);
    assert(paid[0].from == ledger.address);
    if paid.len() == 2 {
        assert(paid.drop_last() =~= seq![paid[0]]);
        assert(paid.drop_last().drop_last() =~= seq![]);
        assert(paid[1].from == ledger.address);
    } else {
        assert(paid.drop_last() =~= seq![]);
    }
}

/// What a sequence of calls adds to the contract's balance in `token`.
pub open spec fn inflow_of_run(ledger: LedgerModel, calls: Seq<Call>, token: Seq<char>) -> int
    decreases calls.len(),
{
    if calls.len() == 0 {
        0
    } else {
        let before = run(ledger, calls.drop_last());
        inflow_of_run(ledger, calls.drop_last(), token) + inflow(
            payments(before, calls.last()),
            before.address,
            token,
        )
    }
}

/// Whether none of the calls makes a payment of the contract to itself.
pub open spec fn never_pays_itself(ledger: LedgerModel, calls: Seq<Call>) -> bool
    decreases calls.len(),
{
    calls.len() > 0 ==> {
        &&& never_pays_itself(ledger, calls.drop_last())
        &&& !pays_itself(run(ledger, calls.drop_last()), calls.last())
    }
}

/// Over any sequence of calls in which the contract does not pay itself, its balance moves in
/// every token exactly as the escrow does.
pub proof fn law_balance_equals_escrow(ledger: LedgerModel, calls: Seq<Call>, token: Seq<char>)
    requires
        well_formed(ledger),
        initialized_first(ledger, calls),
        never_pays_itself(ledger, calls),
    ensures
        inflow_of_run(ledger, calls, token) == in_escrow(run(ledger, calls), token) - in_escrow(
            ledger,
            token,
        ),
    decreases calls.len(),
{
    if calls.len() > 0 {
        let before = run(ledger, calls.drop_last());
        law_balance_equals_escrow(ledger, calls.drop_last(), token);
        law_well_formed_always(ledger, calls.drop_last());
        if own_client(before, calls.last()) {
            // The deposit would be a payment of the contract to itself.
            assert(payments(before, calls.last())[0].to == before.address);
        }
        law_balance_follows_escrow(before, calls.last(), token);
    }
}

/// Whether none of the calls creates a job of which the contract itself is the client.
pub open spec fn never_own_client(ledger: LedgerModel, calls: Seq<Call>) -> bool
    decreases calls.len(),
{
    calls.len() > 0 ==> {
        &&& never_own_client(ledger, calls.drop_last())
        &&& !own_client(run(ledger, calls.drop_last()), calls.last())
    }
}

/// The contract can always pay what it owes: if its balance covers the escrow in a token, it does
/// so after any sequence of calls.
pub proof fn law_escrow_stays_covered(
    ledger: LedgerModel,
    calls: Seq<Call>,
    token: Seq<char>,
    balance: int,
)
    requires
        well_formed(ledger),
        initialized_first(ledger, calls),
        never_own_client(ledger, calls),
        balance >= in_escrow(ledger, token),
    ensures
        balance + inflow_of_run(ledger, calls, token) >= in_escrow(run(ledger, calls), token),
    decreases calls.len(),
{
    if calls.len() > 0 {
        let before = run(ledger, calls.drop_last());
        law_escrow_stays_covered(ledger, calls.drop_last(), token, balance);
        law_well_formed_always(ledger, calls.drop_last());
        law_balance_follows_escrow(before, calls.last(), token);
    }
}

/// What is in escrow is never negative, and it covers each milestone that is not paid out.
pub proof fn law_escrow_covers_each_milestone(
    ledger: LedgerModel,
    job_id: u64,
    milestone_index: u32,
)
    requires
        well_formed(ledger),
        ledger.jobs.contains_key(job_id),
        milestone_index < ledger.jobs[job_id].milestones.len(),
    ensures
        0 <= held_for(milestone_at(ledger, job_id, milestone_index)) <= in_escrow(
            ledger,
            ledger.jobs[job_id].token,
        ),
{
    let job = ledger.jobs[job_id];
    assert(job_well_formed(job));
    lemma_held_covers(job.milestones, milestone_index as int);
    lemma_below_covers(ledger, job_id, job_count(ledger) as nat, job.token);
}

proof fn lemma_held_covers(milestones: Seq<MilestoneModel>, i: int)
    requires
        forall|k: int| 0 <= k < milestones.len() ==> (#[trigger] milestones[k]).amount > 0,
    ensures
        held_for_all(milestones) >= 0,
        0 <= i < milestones.len() ==> 0 <= held_for(milestones[i]) <= held_for_all(milestones),
    decreases milestones.len(),
{
    if milestones.len() > 0 {
        assert(milestones[milestones.len() - 1].amount > 0);
        assert forall|k: int| 0 <= k < milestones.drop_last().len() implies (
        #[trigger] milestones.drop_last()[k]).amount > 0 by {
            assert(milestones[k].amount > 0);
        }
        lemma_held_covers(milestones.drop_last(), i);
    }
}

proof fn lemma_below_covers(ledger: LedgerModel, job_id: u64, n: nat, token: Seq<char>)
    requires
        well_formed(ledger),
        n <= u64::MAX,
    ensures
        held_below(ledger.jobs, n, token) >= 0,
        job_id < n ==> held_by_job(ledger.jobs, job_id, token) <= held_below(
            ledger.jobs,
            n,
            token,
        ),
    decreases n,
{
    if n > 0 {
        lemma_below_covers(ledger, job_id, (n - 1) as nat, token);
        let id = (n - 1) as u64;
        if ledger.jobs.contains_key(id) {
            assert(job_well_formed(ledger.jobs[id]));
            lemma_held_covers(ledger.jobs[id].milestones, 0);
        }
    }
}

} // verus!
