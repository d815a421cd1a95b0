//! The data of the escrow: addresses, milestones, jobs, and what an accepted call asks of the
//! ledger.
//!
//! Each type has a mathematical model, which is its view: text becomes a sequence of characters,
//! a vector becomes a sequence, and numbers stay as they are.
use vstd::prelude::*;
use vstd::std_specs::cmp::PartialEqSpec;

verus! {

/// An account or a contract on the ledger, written as its Stellar strkey.
///
/// Two addresses are the same exactly when their strkeys are.
#[derive(Debug)]
pub struct Address {
    /// The strkey: `G...` for an account, `C...` for a contract
    pub strkey: String,
}

impl View for Address {
    type V = Seq<char>;

    open spec fn view(&self) -> Seq<char> {
        self.strkey@
    }
}

impl Clone for Address {
    fn clone(&self) -> (copy: Self)
        ensures
            copy == *self,
    {
        Address { strkey: self.strkey.clone() }
    }
}

impl PartialEq for Address {
    fn eq(&self, other: &Self) -> (same: bool) {
        self.strkey == other.strkey
    }
}

impl vstd::std_specs::cmp::PartialEqSpecImpl for Address {
    open spec fn obeys_eq_spec() -> bool {
        true
    }

    open spec fn eq_spec(&self, other: &Self) -> bool {
        self.strkey@ == other.strkey@
    }
}

impl Eq for Address {

}

/// Tracks the lifecycle of each milestone through the escrow process.
/// Transitions: Pending -> Submitted -> Approved/Disputed/Released
#[derive(Clone, Copy, Debug, PartialEq, Eq, Structural)]
pub enum MilestoneStatus {
    /// Milestone created, waiting for the freelancer to deliver work
    Pending,
    /// Freelancer has submitted deliverables, awaiting client review
    Submitted,
    /// Client approved the milestone, funds have been released
    Approved,
    /// Client raised a dispute, milestone is frozen
    Disputed,
    /// Funds released to the freelancer after the timeout, without a response of the client
    Released,
}

/// A single milestone within a job, with its own budget, status and submission time.
#[derive(Clone, Debug, PartialEq, Eq)]
pub struct Milestone {
    /// Description of the deliverable, as the bytes of its text: the ledger does not ask them
    /// to be UTF-8
    pub description: Vec<u8>,
    /// Amount in the token's smallest unit (2_500_000_000 is 250 USDC with 7 decimals)
    pub amount: i128,
    /// Current lifecycle status of this milestone
    pub status: MilestoneStatus,
    /// Ledger time, in seconds, at which the freelancer submitted; 0 before that
    pub submitted_at: u64,
}

/// The model of a [`Milestone`].
#[verifier::ext_equal]
pub struct MilestoneModel {
    pub description: Seq<u8>,
    pub amount: i128,
    pub status: MilestoneStatus,
    pub submitted_at: u64,
}

impl View for Milestone {
    type V = MilestoneModel;

    open spec fn view(&self) -> MilestoneModel {
        MilestoneModel {
            description: self.description@,
            amount: self.amount,
            status: self.status,
            submitted_at: self.submitted_at,
        }
    }
}

/// A freelance job between a client and a freelancer, with the state of its escrow.
#[derive(Clone, Debug, PartialEq, Eq)]
pub struct Job {
    /// The client who created and funded the job
    pub client: Address,
    /// The freelancer who delivers the work
    pub freelancer: Address,
    /// The token contract used for payment (such as USDC on Stellar)
    pub token: Address,
    /// Total amount deposited across all milestones
    pub total_amount: i128,
    /// The milestones, each with its amount and status
    pub milestones: Vec<Milestone>,
    /// Whether this job is still active (not cancelled or fully completed). It is completed once
    /// every milestone is approved or released, and then refuses every milestone operation
    pub is_active: bool,
    /// Platform fee in basis points (50 = 0.5%)
    pub fee_bps: u32,
}

/// The model of a [`Job`].
#[verifier::ext_equal]
pub struct JobModel {
    pub client: Seq<char>,
    pub freelancer: Seq<char>,
    pub token: Seq<char>,
    pub total_amount: i128,
    pub milestones: Seq<MilestoneModel>,
    pub is_active: bool,
    pub fee_bps: u32,
}

impl View for Job {
    type V = JobModel;

    open spec fn view(&self) -> JobModel {
        JobModel {
            client: self.client@,
            freelancer: self.freelancer@,
            token: self.token@,
            total_amount: self.total_amount,
            milestones: self.milestones@.map_values(|m: Milestone| m@),
            is_active: self.is_active,
            fee_bps: self.fee_bps,
        }
    }
}

/// The keys of the contract's entries in the ledger.
#[derive(Clone, Copy, Debug, PartialEq, Eq, Structural)]
pub enum DataKey {
    /// A [`Job`], by its ID
    Job(u64),
    /// The counter from which job IDs are drawn
    JobCount,
    /// The address that receives the platform fees
    FeeCollector,
}

/// One payment that the host carries out through the token's contract.
#[derive(Clone, Debug, PartialEq, Eq)]
pub struct Transfer {
    /// The token contract
    pub token: Address,
    /// Who pays
    pub from: Address,
    /// Who is paid
    pub to: Address,
    /// Amount in the token's smallest unit
    pub amount: i128,
}

/// The model of a [`Transfer`].
#[verifier::ext_equal]
pub struct TransferModel {
    pub token: Seq<char>,
    pub from: Seq<char>,
    pub to: Seq<char>,
    pub amount: i128,
}

impl View for Transfer {
    type V = TransferModel;

    open spec fn view(&self) -> TransferModel {
        TransferModel {
            token: self.token@,
            from: self.from@,
            to: self.to@,
            amount: self.amount,
        }
    }
}

/// What an accepted call asks of the host: first the payments, in order, then the entries to
/// store, in order. If one of them fails, the whole call is undone.
#[derive(Clone, Debug, PartialEq, Eq)]
pub struct Effects {
    /// The payments to make
    pub transfers: Vec<Transfer>,
    /// The entries that the call wrote
    pub writes: Vec<DataKey>,
}

/// The model of [`Effects`].
#[verifier::ext_equal]
pub struct EffectsModel {
    pub transfers: Seq<TransferModel>,
    pub writes: Seq<DataKey>,
}

impl View for Effects {
    type V = EffectsModel;

    open spec fn view(&self) -> EffectsModel {
        EffectsModel {
            transfers: self.transfers@.map_values(|t: Transfer| t@),
            writes: self.writes@,
        }
    }
}

// ---------------------------------------------------------------------------------------------
// What the models hold
// ---------------------------------------------------------------------------------------------
/// Two addresses compare as equal exactly if their strkeys are the same text, and the model of an
/// address is that text.
pub proof fn law_address_is_its_strkey(one: Address, two: Address)
    ensures
        one@ == one.strkey@,
        one.eq_spec(&two) <==> one.strkey@ == two.strkey@,
{
}

/// The model of a job tells each of its fields, and each field of each milestone, as it is.
pub proof fn law_model_of_job(job: Job)
    ensures
        job@.client == job.client.strkey@,
        job@.freelancer == job.freelancer.strkey@,
        job@.token == job.token.strkey@,
        job@.total_amount == job.total_amount,
        job@.is_active == job.is_active,
        job@.fee_bps == job.fee_bps,
        job@.milestones.len() == job.milestones@.len(),
        forall|i: int|
            0 <= i < job.milestones@.len() ==> {
                let model = #[trigger] job@.milestones[i];
                &&& model.description == job.milestones@[i].description@
                &&& model.amount == job.milestones@[i].amount
                &&& model.status == job.milestones@[i].status
                &&& model.submitted_at == job.milestones@[i].submitted_at
            },
{
}

/// The model of the effects tells every payment, field by field and in order, and every key.
pub proof fn law_model_of_effects(effects: Effects)
    ensures
        effects@.writes == effects.writes@,
        effects@.transfers.len() == effects.transfers@.len(),
        forall|i: int|
            0 <= i < effects.transfers@.len() ==> {
                let model = #[trigger] effects@.transfers[i];
                &&& model.token == effects.transfers@[i].token.strkey@
                &&& model.from == effects.transfers@[i].from.strkey@
                &&& model.to == effects.transfers@[i].to.strkey@
                &&& model.amount == effects.transfers@[i].amount
            },
{
}

} // verus!
