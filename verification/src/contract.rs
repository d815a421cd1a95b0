//! The contract: milestone escrow with release after 72 hours.
use std::collections::BTreeMap;
use vstd::prelude::*;

use crate::error::GigGuardError;
use crate::fees::{split, FEE_BPS};
use crate::host::{
    amount_items, amounts_len, description_items, descriptions_len, read_amounts,
    read_descriptions,
};
use crate::model::{
    all_paid, amounts_fault, approve, claim, create, create_from_items, dispute, find_job,
    initialized, is_paid, job_count, job_stored, milestone_for, new_job, new_milestone, settle,
    settlement_transfers, submit, total, with_milestone, LedgerModel, Outcome, Party,
    TIMEOUT_SECONDS,
};
use crate::types::{
    Address, DataKey, Effects, EffectsModel, Job, Milestone, MilestoneModel, MilestoneStatus,
    Transfer,
};

verus! {

broadcast use vstd::std_specs::btree::group_btree_axioms;

/// The contract: its address and its entries in the ledger.
pub struct GigGuardContract {
    /// The contract's own address, which holds the funds in escrow
    pub address: Address,
    /// Receives the platform fees; `None` before initialization
    pub fee_collector: Option<Address>,
    /// The number of jobs created; `None` before initialization
    pub job_count: Option<u64>,
    /// The jobs, by ID
    pub jobs: BTreeMap<u64, Job>,
}

impl View for GigGuardContract {
    type V = LedgerModel;

    open spec fn view(&self) -> LedgerModel {
        LedgerModel {
            address: self.address@,
            fee_collector: match self.fee_collector {
                Some(collector) => Some(collector@),
                None => None,
            },
            job_count: self.job_count,
            jobs: self.jobs@.map_values(|job: Job| job@),
        }
    }
}

/// Whether `result` and `after` are what `outcome` says of a milestone operation on `before`.
pub open spec fn matches_outcome(
    outcome: Outcome<()>,
    before: LedgerModel,
    after: LedgerModel,
    result: Result<Effects, GigGuardError>,
) -> bool {
    match outcome {
        Ok((_, ledger, effects)) => result matches Ok(fx) && fx@ == effects && after == ledger,
        Err(reason) => result == Err::<Effects, _>(reason) && after == before,
    }
}

/// Whether `result` and `after` are what `outcome` says of a creation on `before`.
pub open spec fn matches_creation(
    outcome: Outcome<u64>,
    before: LedgerModel,
    after: LedgerModel,
    result: Result<(u64, Effects), GigGuardError>,
) -> bool {
    match outcome {
        Ok((job_id, ledger, effects)) => result matches Ok((id, fx)) && id == job_id && fx@
            == effects && after == ledger,
        Err(reason) => result == Err::<(u64, Effects), _>(reason) && after == before,
    }
}

/// The model of the contract tells its address, its fee collector, its counter, and under each ID
/// exactly the job that is stored there.
pub proof fn law_model_of_contract(contract: GigGuardContract, job_id: u64)
    ensures
        contract@.address == contract.address.strkey@,
        contract@.fee_collector is Some <==> contract.fee_collector is Some,
        contract.fee_collector matches Some(collector) ==> contract@.fee_collector == Some(
            collector.strkey@,
        ),
        contract@.job_count == contract.job_count,
        contract@.jobs.contains_key(job_id) <==> contract.jobs@.contains_key(job_id),
        contract.jobs@.contains_key(job_id) ==> contract@.jobs[job_id]
            == contract.jobs@[job_id]@,
{
}

/// A milestone operation returns success exactly where its outcome is one, with the effects of
/// the outcome, and leaves its storage; otherwise it returns the reason, and leaves the storage as
/// it was.
pub proof fn law_operation_follows_outcome(
    outcome: Outcome<()>,
    before: LedgerModel,
    after: LedgerModel,
    result: Result<Effects, GigGuardError>,
)
    requires
        matches_outcome(outcome, before, after, result),
    ensures
        result is Ok <==> outcome is Ok,
        result is Ok ==> result->Ok_0@ == outcome->Ok_0.2 && after == outcome->Ok_0.1,
        result is Err ==> result->Err_0 == outcome->Err_0 && after == before,
{
}

/// A creation returns success exactly where its outcome is one, with the ID and the effects of the
/// outcome, and leaves its storage; otherwise it returns the reason, and leaves the storage as it
/// was.
pub proof fn law_creation_follows_outcome(
    outcome: Outcome<u64>,
    before: LedgerModel,
    after: LedgerModel,
    result: Result<(u64, Effects), GigGuardError>,
)
    requires
        matches_creation(outcome, before, after, result),
    ensures
        result is Ok <==> outcome is Ok,
        result is Ok ==> result->Ok_0.0 == outcome->Ok_0.0 && result->Ok_0.1@ == outcome->Ok_0.2
            && after == outcome->Ok_0.1,
        result is Err ==> result->Err_0 == outcome->Err_0 && after == before,
{
}

impl GigGuardContract {
    // -----------------------------------------------------------------------------------------
    // Initialization
    // -----------------------------------------------------------------------------------------
    /// A contract at `address` whose storage is empty.
    pub fn new(address: Address) -> (contract: Self)
        ensures
            contract@ == (LedgerModel {
                address: address@,
                fee_collector: None,
                job_count: None,
                jobs: Map::empty(),
            }),
    {
        let contract = GigGuardContract {
            address,
            fee_collector: None,
            job_count: None,
            jobs: BTreeMap::new(),
        };
        assert(contract@.jobs =~= Map::empty());
        contract
    }

    /// Sets up the contract with a fee collector address and starts the job counter at zero.
    /// Is to be called once after deployment.
    pub fn initialize(&mut self, fee_collector: Address) -> (effects: Effects)
        ensures
            final(self)@ == initialized(old(self)@, fee_collector@),
            effects@ == (EffectsModel {
                transfers: seq![],
                writes: seq![DataKey::FeeCollector, DataKey::JobCount],
            }),
    {
        self.fee_collector = Some(fee_collector);
        self.job_count = Some(0);
        let effects = Effects {
            transfers: Vec::new(),
            writes: vec![DataKey::FeeCollector, DataKey::JobCount],
        };
        assert(effects@.transfers =~= seq![]);
        effects
    }

    // -----------------------------------------------------------------------------------------
    // Job creation: the client deposits funds and defines milestones
    // -----------------------------------------------------------------------------------------
    /// Creates a new job from milestones in the host's vectors, as [`open_job`] does from plain
    /// ones. An item of the wrong type is refused, too.
    ///
    /// [`open_job`]: GigGuardContract::open_job
    pub fn create_job(
        &mut self,
        client: Address,
        freelancer: Address,
        token: Address,
        milestone_amounts: &soroban_sdk::Vec<i128>,
        milestone_descriptions: &soroban_sdk::Vec<soroban_sdk::String>,
    ) -> (result: Result<(u64, Effects), GigGuardError>)
        ensures
            matches_creation(
                create_from_items(
                    old(self)@,
                    client@,
                    freelancer@,
                    token@,
                    amount_items(*milestone_amounts),
                    description_items(*milestone_descriptions),
                ),
                old(self)@,
                final(self)@,
                result,
            ),
    {
        let n: u32 = amounts_len(milestone_amounts);
        if n != descriptions_len(milestone_descriptions) {
            return Err(GigGuardError::MismatchedMilestones);
        }
        if n == 0 {
            return Err(GigGuardError::NoMilestones);
        }
        let amounts = read_amounts(milestone_amounts);
        if let Err(fault) = checked_total(&amounts) {
            return Err(fault);
        }
        if amounts.len() < n as usize {
            return Err(GigGuardError::UndecodableMilestone);
        }
        let descriptions = read_descriptions(milestone_descriptions);
        if descriptions.len() < n as usize {
            return Err(GigGuardError::UndecodableMilestone);
        }
        self.open_job(client, freelancer, token, &amounts, &descriptions)
    }

    /// Creates a new job. The client defines milestones with amounts and descriptions, and
    /// deposits the total amount into the contract, where it is locked.
    ///
    /// Returns the ID of the job.
    pub fn open_job(
        &mut self,
        client: Address,
        freelancer: Address,
        token: Address,
        amounts: &Vec<i128>,
        descriptions: &Vec<Vec<u8>>,
    ) -> (result: Result<(u64, Effects), GigGuardError>)
        ensures
            matches_creation(
                create(
                    old(self)@,
                    client@,
                    freelancer@,
                    token@,
                    amounts@,
                    descriptions@.map_values(|d: Vec<u8>| d@),
                ),
                old(self)@,
                final(self)@,
                result,
            ),
    {
        if amounts.len() != descriptions.len() {
            return Err(GigGuardError::MismatchedMilestones);
        }
        if amounts.len() == 0 {
            return Err(GigGuardError::NoMilestones);
        }
        let total_amount: i128 = match checked_total(amounts) {
            Err(fault) => {
                return Err(fault);
            },
            Ok(total_amount) => total_amount,
        };
        let job_id: u64 = self.get_job_count();
        let next_id: u64 = match job_id.checked_add(1) {
            None => {
                return Err(GigGuardError::JobCountOverflow);
            },
            Some(next_id) => next_id,
        };
        let deposit = Transfer {
            token: token.clone(),
            from: client.clone(),
            to: self.address.clone(),
            amount: total_amount,
        };
        let job = Job {
            client,
            freelancer,
            token,
            total_amount,
            milestones: pending_milestones(amounts, descriptions),
            is_active: true,
            fee_bps: FEE_BPS,
        };
        let ghost stored = job@;
        self.jobs.insert(job_id, job);
        self.job_count = Some(next_id);
        let effects = Effects {
            transfers: vec![deposit],
            writes: vec![DataKey::Job(job_id), DataKey::JobCount],
        };
        proof {
            let texts = descriptions@.map_values(|d: Vec<u8>| d@);
            assert(stored =~= new_job(client@, freelancer@, token@, amounts@, texts));
            assert(self@.jobs =~= old(self)@.jobs.insert(job_id, stored));
            assert(effects@.transfers =~= seq![deposit@]);
            assert(effects@.writes =~= seq![DataKey::Job(job_id), DataKey::JobCount]);
        }
        Ok((job_id, effects))
    }

    // -----------------------------------------------------------------------------------------
    // Milestone submission: the freelancer delivers work
    // -----------------------------------------------------------------------------------------
    /// The freelancer marks a milestone as submitted after delivering work. The time `now` of the
    /// ledger is recorded: it starts the 72 hours in which the client can respond.
    pub fn submit_milestone(
        &mut self,
        freelancer: &Address,
        job_id: u64,
        milestone_index: u32,
        now: u64,
    ) -> (result: Result<Effects, GigGuardError>)
        ensures
            matches_outcome(
                submit(old(self)@, freelancer@, job_id, milestone_index, now),
                old(self)@,
                final(self)@,
                result,
            ),
    {
        match self.milestone_of(
            Party::Freelancer,
            freelancer,
            job_id,
            milestone_index,
            MilestoneStatus::Pending,
            GigGuardError::NotPending,
        ) {
            Err(reason) => Err(reason),
            Ok(_) => {
                self.set_milestone(job_id, milestone_index, MilestoneStatus::Submitted, Some(now));
                Ok(stored_job_effects(job_id))
            },
        }
    }

    // -----------------------------------------------------------------------------------------
    // Milestone approval: the client approves and funds are released
    // -----------------------------------------------------------------------------------------
    /// The client approves a submitted milestone. The amount less the platform fee goes to the
    /// freelancer, the fee to the fee collector. With the last payment the job is completed.
    pub fn approve_milestone(
        &mut self,
        client: &Address,
        job_id: u64,
        milestone_index: u32,
    ) -> (result: Result<Effects, GigGuardError>)
        ensures
            matches_outcome(
                approve(old(self)@, client@, job_id, milestone_index),
                old(self)@,
                final(self)@,
                result,
            ),
    {
        match self.milestone_of(
            Party::Client,
            client,
            job_id,
            milestone_index,
            MilestoneStatus::Submitted,
            GigGuardError::NotSubmitted,
        ) {
            Err(reason) => Err(reason),
            Ok(_) => self.settle_milestone(job_id, milestone_index, MilestoneStatus::Approved),
        }
    }

    // -----------------------------------------------------------------------------------------
    // Timeout claim: the client did not respond
    // -----------------------------------------------------------------------------------------
    /// The freelancer claims the funds of a submitted milestone once 72 hours have passed since
    /// the submission, by the time `now` of the ledger. The funds are split as on approval, and
    /// with the last payment the job is completed.
    pub fn claim_timeout(
        &mut self,
        freelancer: &Address,
        job_id: u64,
        milestone_index: u32,
        now: u64,
    ) -> (result: Result<Effects, GigGuardError>)
        ensures
            matches_outcome(
                claim(old(self)@, freelancer@, job_id, milestone_index, now),
                old(self)@,
                final(self)@,
                result,
            ),
    {
        let submitted_at: u64 = match self.milestone_of(
            Party::Freelancer,
            freelancer,
            job_id,
            milestone_index,
            MilestoneStatus::Submitted,
            GigGuardError::NotClaimable,
        ) {
            Err(reason) => {
                return Err(reason);
            },
            Ok(milestone) => milestone.submitted_at,
        };
        let deadline: u64 = match submitted_at.checked_add(TIMEOUT_SECONDS) {
            None => {
                return Err(GigGuardError::DeadlineOverflow);
            },
            Some(deadline) => deadline,
        };
        if now < deadline {
            return Err(GigGuardError::TimeoutNotReached);
        }
        self.settle_milestone(job_id, milestone_index, MilestoneStatus::Released)
    }

    // -----------------------------------------------------------------------------------------
    // Dispute: the client flags a problem
    // -----------------------------------------------------------------------------------------
    /// The client disputes a submitted milestone, which freezes its funds: it can no longer be
    /// approved or claimed.
    pub fn dispute_milestone(
        &mut self,
        client: &Address,
        job_id: u64,
        milestone_index: u32,
    ) -> (result: Result<Effects, GigGuardError>)
        ensures
            matches_outcome(
                dispute(old(self)@, client@, job_id, milestone_index),
                old(self)@,
                final(self)@,
                result,
            ),
    {
        match self.milestone_of(
            Party::Client,
            client,
            job_id,
            milestone_index,
            MilestoneStatus::Submitted,
            GigGuardError::NotDisputable,
        ) {
            Err(reason) => Err(reason),
            Ok(_) => {
                self.set_milestone(job_id, milestone_index, MilestoneStatus::Disputed, None);
                Ok(stored_job_effects(job_id))
            },
        }
    }

    // -----------------------------------------------------------------------------------------
    // Queries
    // -----------------------------------------------------------------------------------------
    /// Returns the full job details including all milestones and their statuses.
    pub fn get_job(&self, job_id: u64) -> (job: Result<&Job, GigGuardError>)
        ensures
            match find_job(self@, job_id) {
                Ok(stored) => job matches Ok(j) && j@ == stored,
                Err(reason) => job == Err::<&Job, _>(reason),
            },
    {
        match self.jobs.get(&job_id) {
            Some(job) => Ok(job),
            None => Err(GigGuardError::JobNotFound),
        }
    }

    /// Returns the total number of jobs created on the contract.
    pub fn get_job_count(&self) -> (count: u64)
        ensures
            count == job_count(self@),
    {
        match self.job_count {
            Some(count) => count,
            None => 0,
        }
    }

    // -----------------------------------------------------------------------------------------
    // Steps that operations share
    // -----------------------------------------------------------------------------------------
    /// The milestone that `caller`, as `party` of the job, may operate on.
    fn milestone_of(
        &self,
        party: Party,
        caller: &Address,
        job_id: u64,
        milestone_index: u32,
        status: MilestoneStatus,
        otherwise: GigGuardError,
    ) -> (result: Result<&Milestone, GigGuardError>)
        ensures
            match milestone_for(
                self@,
                party,
                caller@,
                job_id,
                milestone_index,
                status,
                otherwise,
            ) {
                Ok(milestone) => result matches Ok(m) && m@ == milestone,
                Err(reason) => result == Err::<&Milestone, _>(reason),
            },
    {
        let job = match self.jobs.get(&job_id) {
            None => {
                return Err(GigGuardError::JobNotFound);
            },
            Some(job) => job,
        };
        if !job.is_active {
            return Err(GigGuardError::JobNotActive);
        }
        match party {
            Party::Client => if job.client != *caller {
                return Err(GigGuardError::NotTheClient);
            },
            Party::Freelancer => if job.freelancer != *caller {
                return Err(GigGuardError::NotTheFreelancer);
            },
        }
        let index: usize = milestone_index as usize;
        if index >= job.milestones.len() {
            return Err(GigGuardError::InvalidMilestoneIndex);
        }
        let milestone = &job.milestones[index];
        if milestone.status != status {
            return Err(otherwise);
        }
        Ok(milestone)
    }

    /// Moves a milestone to `status`, and records `submitted_at` if there is one. A job whose
    /// milestones are then all paid out is completed.
    fn set_milestone(
        &mut self,
        job_id: u64,
        milestone_index: u32,
        status: MilestoneStatus,
        submitted_at: Option<u64>,
    )
        requires
            old(self)@.jobs.contains_key(job_id),
            milestone_index < old(self)@.jobs[job_id].milestones.len(),
        ensures
            ({
                let milestone = old(self)@.jobs[job_id].milestones[milestone_index as int];
                final(self)@ == with_milestone(
                    old(self)@,
                    job_id,
                    milestone_index,
                    MilestoneModel {
                        status,
                        submitted_at: match submitted_at {
                            Some(time) => time,
                            None => milestone.submitted_at,
                        },
                        ..milestone
                    },
                )
            }),
    {
        match self.jobs.remove(&job_id) {
            None => {},
            Some(mut job) => {
                let ghost before = job@;
                let index: usize = milestone_index as usize;
                job.milestones[index].status = status;
                if let Some(time) = submitted_at {
                    job.milestones[index].submitted_at = time;
                }
                if fully_paid(&job.milestones) {
                    job.is_active = false;
                }
                assert(job@.milestones =~= before.milestones.update(
                    milestone_index as int,
                    job@.milestones[milestone_index as int],
                ));
                self.jobs.insert(job_id, job);
                assert(self@.jobs =~= old(self)@.jobs.insert(job_id, job@));
            },
        }
    }

    /// Splits the amount of a milestone between freelancer and fee collector, and moves it to
    /// `status`.
    fn settle_milestone(
        &mut self,
        job_id: u64,
        milestone_index: u32,
        status: MilestoneStatus,
    ) -> (result: Result<Effects, GigGuardError>)
        requires
            old(self)@.jobs.contains_key(job_id),
            milestone_index < old(self)@.jobs[job_id].milestones.len(),
        ensures
            matches_outcome(
                settle(
                    old(self)@,
                    job_id,
                    milestone_index,
                    old(self)@.jobs[job_id].milestones[milestone_index as int],
                    status,
                ),
                old(self)@,
                final(self)@,
                result,
            ),
    {
        let job = match self.jobs.get(&job_id) {
            None => {
                return Err(GigGuardError::JobNotFound);
            },
            Some(job) => job,
        };
        let index: usize = milestone_index as usize;
        let parts = match split(job.milestones[index].amount, job.fee_bps) {
            None => {
                return Err(GigGuardError::FeeOverflow);
            },
            Some(parts) => parts,
        };
        let mut transfers: Vec<Transfer> = Vec::new();
        transfers.push(
            Transfer {
                token: job.token.clone(),
                from: self.address.clone(),
                to: job.freelancer.clone(),
                amount: parts.payout,
            },
        );
        if parts.fee > 0 {
            match &self.fee_collector {
                None => {
                    return Err(GigGuardError::FeeCollectorNotSet);
                },
                Some(collector) => {
                    transfers.push(
                        Transfer {
                            token: job.token.clone(),
                            from: self.address.clone(),
                            to: collector.clone(),
                            amount: parts.fee,
                        },
                    );
                },
            }
        }
        self.set_milestone(job_id, milestone_index, status, None);
        let effects = Effects { transfers, writes: vec![DataKey::Job(job_id)] };
        assert(effects@.transfers =~= settlement_transfers(
            old(self)@,
            old(self)@.jobs[job_id],
            old(self)@.jobs[job_id].milestones[milestone_index as int].amount,
        ));
        assert(effects@.writes =~= seq![DataKey::Job(job_id)]);
        Ok(effects)
    }
}

/// Adds up the amounts; each has to be positive, and the total has to fit in an `i128`.
fn checked_total(amounts: &Vec<i128>) -> (result: Result<i128, GigGuardError>)
    ensures
        match amounts_fault(amounts@) {
            Some(fault) => result == Err::<i128, _>(fault),
            None => result matches Ok(sum) && sum == total(amounts@),
        },
{
    let mut sum: i128 = 0;
    let mut i: usize = 0;
    while i < amounts.len()
        invariant
            i <= amounts.len(),
            amounts_fault(amounts@.take(i as int)) is None,
            sum == total(amounts@.take(i as int)),
            sum >= 0,
        decreases amounts.len() - i,
    {
        let amount: i128 = amounts[i];
        proof {
            assert(amounts@.take(i + 1).drop_last() =~= amounts@.take(i as int));
            if amounts_fault(amounts@.take(i + 1)) is Some {
                lemma_fault_stays(amounts@, i + 1);
            }
        }
        if amount <= 0 {
            return Err(GigGuardError::NonPositiveAmount);
        }
        sum = match sum.checked_add(amount) {
            None => {
                return Err(GigGuardError::TotalOverflow);
            },
            Some(sum) => sum,
        };
        i = i + 1;
    }
    assert(amounts@.take(i as int) =~= amounts@);
    Ok(sum)
}

/// A fault in the first `n` amounts is the fault of them all.
proof fn lemma_fault_stays(amounts: Seq<i128>, n: int)
    requires
        0 <= n <= amounts.len(),
        amounts_fault(amounts.take(n)) is Some,
    ensures
        amounts_fault(amounts) == amounts_fault(amounts.take(n)),
    decreases amounts.len(),
{
    if n == amounts.len() {
        assert(amounts.take(n) =~= amounts);
    } else {
        assert(amounts.drop_last().take(n) =~= amounts.take(n));
        lemma_fault_stays(amounts.drop_last(), n);
    }
}

/// The milestones of a new job.
fn pending_milestones(amounts: &Vec<i128>, descriptions: &Vec<Vec<u8>>) -> (milestones: Vec<
    Milestone,
>)
    requires
        amounts.len() == descriptions.len(),
    ensures
        milestones@.map_values(|m: Milestone| m@) == Seq::new(
            amounts@.len(),
            |i: int| new_milestone(amounts@[i], descriptions@[i]@),
        ),
{
    let mut milestones: Vec<Milestone> = Vec::new();
    let mut i: usize = 0;
    while i < amounts.len()
        invariant
            i <= amounts.len(),
            amounts.len() == descriptions.len(),
            milestones.len() == i,
            forall|j: int|
                0 <= j < i ==> (#[trigger] milestones@[j])@ == new_milestone(
                    amounts@[j],
                    descriptions@[j]@,
                ),
        decreases amounts.len() - i,
    {
        let description = descriptions[i].clone();
        assert(description@ =~= descriptions@[i as int]@);
        milestones.push(
            Milestone {
                description,
                amount: amounts[i],
                status: MilestoneStatus::Pending,
                submitted_at: 0,
            },
        );
        i = i + 1;
    }
    assert(milestones@.map_values(|m: Milestone| m@) =~= Seq::new(
        amounts@.len(),
        |i: int| new_milestone(amounts@[i], descriptions@[i]@),
    ));
    milestones
}

/// Whether every milestone has been paid out, by approval or by timeout.
fn fully_paid(milestones: &Vec<Milestone>) -> (paid: bool)
    ensures
        paid == all_paid(milestones@.map_values(|m: Milestone| m@)),
{
    let ghost models = milestones@.map_values(|m: Milestone| m@);
    let mut i: usize = 0;
    while i < milestones.len()
        invariant
            i <= milestones.len(),
            models == milestones@.map_values(|m: Milestone| m@),
            forall|j: int| 0 <= j < i ==> is_paid((#[trigger] models[j]).status),
        decreases milestones.len() - i,
    {
        let status = milestones[i].status;
        if status != MilestoneStatus::Approved && status != MilestoneStatus::Released {
            assert(!is_paid(models[i as int].status));
            return false;
        }
        i = i + 1;
    }
    true
}

/// The effects of an operation that stores one job and pays nobody.
fn stored_job_effects(job_id: u64) -> (effects: Effects)
    ensures
        effects@ == job_stored(job_id),
{
    let effects = Effects { transfers: Vec::new(), writes: vec![DataKey::Job(job_id)] };
    assert(effects@.transfers =~= seq![]);
    effects
}

} // verus!
