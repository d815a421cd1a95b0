//! The rules of the escrow on plain values.
use gigguard::fees::{split, Split};
use gigguard::model::TIMEOUT_SECONDS;
use gigguard::{
    Address, DataKey, Effects, GigGuardContract, GigGuardError, Job, MilestoneStatus, Transfer,
};

fn address(name: &str) -> Address {
    Address { strkey: name.to_string() }
}

fn contract() -> GigGuardContract {
    let mut contract = GigGuardContract::new(address("ESCROW"));
    contract.initialize(address("COLLECTOR"));
    contract
}

fn open(contract: &mut GigGuardContract, amounts: &[i128]) -> Result<u64, GigGuardError> {
    let descriptions = amounts.iter().map(|amount| format!("{}", amount).into_bytes()).collect();
    contract
        .open_job(
            address("CLIENT"),
            address("FREELANCER"),
            address("TOKEN"),
            &amounts.to_vec(),
            &descriptions,
        )
        .map(|created| created.0)
}

fn transfer(from: &str, to: &str, amount: i128) -> Transfer {
    Transfer { token: address("TOKEN"), from: address(from), to: address(to), amount }
}

fn job(contract: &GigGuardContract, job_id: u64) -> Job {
    contract.get_job(job_id).unwrap().clone()
}

#[test]
fn initialize_sets_collector_and_counter() {
    let mut contract = GigGuardContract::new(address("ESCROW"));
    assert_eq!(contract.get_job_count(), 0);
    assert_eq!(contract.job_count, None);
    let effects = contract.initialize(address("COLLECTOR"));
    assert_eq!(
        effects,
        Effects { transfers: vec![], writes: vec![DataKey::FeeCollector, DataKey::JobCount] }
    );
    assert_eq!(contract.fee_collector, Some(address("COLLECTOR")));
    assert_eq!(contract.job_count, Some(0));
}

#[test]
fn creation_locks_the_total() {
    let mut contract = contract();
    let (job_id, effects) = contract
        .open_job(
            address("CLIENT"),
            address("FREELANCER"),
            address("TOKEN"),
            &vec![3, 4],
            &vec![b"x".to_vec(), b"y".to_vec()],
        )
        .unwrap();
    assert_eq!(job_id, 0);
    assert_eq!(effects.transfers, vec![transfer("CLIENT", "ESCROW", 7)]);
    assert_eq!(effects.writes, vec![DataKey::Job(0), DataKey::JobCount]);
    assert_eq!(job(&contract, 0).total_amount, 7);
    assert_eq!(job(&contract, 0).milestones[1].description, b"y");
}

#[test]
fn ids_count_up_and_jobs_keep_apart() {
    let mut contract = contract();
    assert_eq!(open(&mut contract, &[10]), Ok(0));
    let first = job(&contract, 0);
    assert_eq!(open(&mut contract, &[20, 30]), Ok(1));
    assert_eq!(contract.get_job_count(), 2);
    assert_eq!(job(&contract, 0), first);
    assert_eq!(job(&contract, 1).total_amount, 50);
    contract.submit_milestone(&address("FREELANCER"), 1, 1, 9).unwrap();
    assert_eq!(job(&contract, 0), first);
    assert_eq!(job(&contract, 1).milestones[0].status, MilestoneStatus::Pending);
    assert_eq!(job(&contract, 1).milestones[1].status, MilestoneStatus::Submitted);
    assert_eq!(contract.get_job(2).err(), Some(GigGuardError::JobNotFound));
}

#[test]
fn creation_works_before_initialization() {
    let mut contract = GigGuardContract::new(address("ESCROW"));
    assert_eq!(open(&mut contract, &[1_000]), Ok(0));
    assert_eq!(contract.get_job_count(), 1);
}

#[test]
fn faulty_milestones_are_refused() {
    let mut contract = contract();
    assert_eq!(open(&mut contract, &[]), Err(GigGuardError::NoMilestones));
    assert_eq!(open(&mut contract, &[5, 0]), Err(GigGuardError::NonPositiveAmount));
    assert_eq!(open(&mut contract, &[-5]), Err(GigGuardError::NonPositiveAmount));
    assert_eq!(open(&mut contract, &[i128::MAX, 1, 0]), Err(GigGuardError::TotalOverflow));
    assert_eq!(open(&mut contract, &[i128::MAX, 0, 1]), Err(GigGuardError::NonPositiveAmount));
    assert_eq!(open(&mut contract, &[i128::MAX - 1, 1]), Ok(0));
    let mismatched = contract.open_job(
        address("CLIENT"),
        address("FREELANCER"),
        address("TOKEN"),
        &vec![1, 2],
        &vec![b"x".to_vec()],
    );
    assert_eq!(mismatched.err(), Some(GigGuardError::MismatchedMilestones));
    assert_eq!(contract.get_job_count(), 1);
}

#[test]
fn counter_does_not_wrap() {
    let mut contract = contract();
    contract.job_count = Some(u64::MAX);
    assert_eq!(open(&mut contract, &[5]), Err(GigGuardError::JobCountOverflow));
    contract.job_count = Some(u64::MAX - 1);
    assert_eq!(open(&mut contract, &[5]), Ok(u64::MAX - 1));
}

#[test]
fn operations_check_job_caller_and_index() {
    let mut contract = contract();
    let (client, freelancer, other) = (address("CLIENT"), address("FREELANCER"), address("OTHER"));
    assert_eq!(
        contract.submit_milestone(&freelancer, 0, 0, 1).err(),
        Some(GigGuardError::JobNotFound)
    );
    assert_eq!(contract.approve_milestone(&client, 0, 0).err(), Some(GigGuardError::JobNotFound));
    assert_eq!(contract.claim_timeout(&freelancer, 0, 0, 1).err(), Some(GigGuardError::JobNotFound));
    assert_eq!(contract.dispute_milestone(&client, 0, 0).err(), Some(GigGuardError::JobNotFound));
    open(&mut contract, &[10_000]).unwrap();
    for caller in [&client, &other] {
        assert_eq!(
            contract.submit_milestone(caller, 0, 0, 1).err(),
            Some(GigGuardError::NotTheFreelancer)
        );
        assert_eq!(
            contract.claim_timeout(caller, 0, 0, 1).err(),
            Some(GigGuardError::NotTheFreelancer)
        );
    }
    for caller in [&freelancer, &other] {
        assert_eq!(
            contract.approve_milestone(caller, 0, 0).err(),
            Some(GigGuardError::NotTheClient)
        );
        assert_eq!(
            contract.dispute_milestone(caller, 0, 0).err(),
            Some(GigGuardError::NotTheClient)
        );
    }
    for index in [1, u32::MAX] {
        assert_eq!(
            contract.submit_milestone(&freelancer, 0, index, 1).err(),
            Some(GigGuardError::InvalidMilestoneIndex)
        );
        assert_eq!(
            contract.dispute_milestone(&client, 0, index).err(),
            Some(GigGuardError::InvalidMilestoneIndex)
        );
    }
    let mut inactive = job(&contract, 0);
    inactive.is_active = false;
    contract.jobs.insert(0, inactive);
    assert_eq!(
        contract.submit_milestone(&other, 0, 7, 1).err(),
        Some(GigGuardError::JobNotActive)
    );
}

#[test]
fn only_submitted_milestones_are_reviewed() {
    let mut contract = contract();
    let (client, freelancer) = (address("CLIENT"), address("FREELANCER"));
    open(&mut contract, &[10_000]).unwrap();
    assert_eq!(contract.approve_milestone(&client, 0, 0).err(), Some(GigGuardError::NotSubmitted));
    assert_eq!(contract.dispute_milestone(&client, 0, 0).err(), Some(GigGuardError::NotDisputable));
    assert_eq!(
        contract.claim_timeout(&freelancer, 0, 0, u64::MAX).err(),
        Some(GigGuardError::NotClaimable)
    );
    let effects = contract.submit_milestone(&freelancer, 0, 0, 77).unwrap();
    assert_eq!(effects, Effects { transfers: vec![], writes: vec![DataKey::Job(0)] });
    assert_eq!(job(&contract, 0).milestones[0].submitted_at, 77);
    assert_eq!(
        contract.submit_milestone(&freelancer, 0, 0, 78).err(),
        Some(GigGuardError::NotPending)
    );
    assert_eq!(job(&contract, 0).milestones[0].submitted_at, 77);
}

#[test]
fn settled_milestones_are_not_paid_again() {
    let mut contract = contract();
    let (client, freelancer) = (address("CLIENT"), address("FREELANCER"));
    open(&mut contract, &[10_000, 10_000, 10_000]).unwrap();
    contract.submit_milestone(&freelancer, 0, 0, 5).unwrap();
    contract.submit_milestone(&freelancer, 0, 1, 5).unwrap();
    let paid = vec![
        transfer("ESCROW", "FREELANCER", 9_950),
        transfer("ESCROW", "COLLECTOR", 50),
    ];
    assert_eq!(contract.approve_milestone(&client, 0, 0).unwrap().transfers, paid);
    assert_eq!(contract.claim_timeout(&freelancer, 0, 1, 1_000_000).unwrap().transfers, paid);
    let settled = job(&contract, 0);
    for index in [0, 1] {
        assert_eq!(
            contract.approve_milestone(&client, 0, index).err(),
            Some(GigGuardError::NotSubmitted)
        );
        assert_eq!(
            contract.claim_timeout(&freelancer, 0, index, u64::MAX).err(),
            Some(GigGuardError::NotClaimable)
        );
        assert_eq!(
            contract.submit_milestone(&freelancer, 0, index, 6).err(),
            Some(GigGuardError::NotPending)
        );
        assert_eq!(
            contract.dispute_milestone(&client, 0, index).err(),
            Some(GigGuardError::NotDisputable)
        );
    }
    assert_eq!(job(&contract, 0), settled);
    // The third milestone keeps the job active.
    assert_eq!(settled.is_active, true);
}

#[test]
fn the_last_payment_completes_a_job() {
    let mut contract = contract();
    let (client, freelancer) = (address("CLIENT"), address("FREELANCER"));
    open(&mut contract, &[10_000, 10_000]).unwrap();
    contract.submit_milestone(&freelancer, 0, 0, 5).unwrap();
    contract.submit_milestone(&freelancer, 0, 1, 5).unwrap();
    contract.approve_milestone(&client, 0, 0).unwrap();
    assert_eq!(job(&contract, 0).is_active, true);
    contract.claim_timeout(&freelancer, 0, 1, 1_000_000).unwrap();
    assert_eq!(job(&contract, 0).is_active, false);
    let completed = job(&contract, 0);
    let not_active = Some(GigGuardError::JobNotActive);
    for index in [0, 1, 2] {
        assert_eq!(contract.approve_milestone(&client, 0, index).err(), not_active);
        assert_eq!(contract.claim_timeout(&freelancer, 0, index, u64::MAX).err(), not_active);
        assert_eq!(contract.submit_milestone(&freelancer, 0, index, 6).err(), not_active);
        assert_eq!(contract.dispute_milestone(&client, 0, index).err(), not_active);
    }
    assert_eq!(job(&contract, 0), completed);
}

#[test]
fn a_disputed_milestone_keeps_the_job_active() {
    let mut contract = contract();
    let (client, freelancer) = (address("CLIENT"), address("FREELANCER"));
    open(&mut contract, &[10_000, 10_000]).unwrap();
    contract.submit_milestone(&freelancer, 0, 0, 5).unwrap();
    contract.submit_milestone(&freelancer, 0, 1, 5).unwrap();
    contract.dispute_milestone(&client, 0, 0).unwrap();
    contract.approve_milestone(&client, 0, 1).unwrap();
    assert_eq!(job(&contract, 0).is_active, true);
    assert_eq!(
        contract.claim_timeout(&freelancer, 0, 0, u64::MAX).err(),
        Some(GigGuardError::NotClaimable)
    );
}

#[test]
fn claim_waits_for_the_full_window() {
    let mut contract = contract();
    let freelancer = address("FREELANCER");
    open(&mut contract, &[10_000]).unwrap();
    contract.submit_milestone(&freelancer, 0, 0, 1_000_000).unwrap();
    assert_eq!(
        contract.claim_timeout(&freelancer, 0, 0, 1_000_000 + 259_199).err(),
        Some(GigGuardError::TimeoutNotReached)
    );
    assert_eq!(
        contract.claim_timeout(&freelancer, 0, 0, 0).err(),
        Some(GigGuardError::TimeoutNotReached)
    );
    let effects = contract.claim_timeout(&freelancer, 0, 0, 1_000_000 + TIMEOUT_SECONDS).unwrap();
    assert_eq!(effects.transfers[0], transfer("ESCROW", "FREELANCER", 9_950));
    assert_eq!(effects.writes, vec![DataKey::Job(0)]);
    assert_eq!(job(&contract, 0).milestones[0].status, MilestoneStatus::Released);
    assert_eq!(job(&contract, 0).milestones[0].submitted_at, 1_000_000);
}

#[test]
fn deadline_does_not_wrap() {
    let mut contract = contract();
    let freelancer = address("FREELANCER");
    open(&mut contract, &[10_000]).unwrap();
    contract.submit_milestone(&freelancer, 0, 0, u64::MAX - 259_199).unwrap();
    assert_eq!(
        contract.claim_timeout(&freelancer, 0, 0, u64::MAX).err(),
        Some(GigGuardError::DeadlineOverflow)
    );
}

#[test]
fn a_fee_needs_a_collector() {
    let mut contract = GigGuardContract::new(address("ESCROW"));
    let (client, freelancer) = (address("CLIENT"), address("FREELANCER"));
    open(&mut contract, &[200, 199]).unwrap();
    contract.submit_milestone(&freelancer, 0, 0, 1).unwrap();
    contract.submit_milestone(&freelancer, 0, 1, 1).unwrap();
    let before = job(&contract, 0);
    assert_eq!(
        contract.approve_milestone(&client, 0, 0).err(),
        Some(GigGuardError::FeeCollectorNotSet)
    );
    assert_eq!(job(&contract, 0), before);
    assert_eq!(
        contract.approve_milestone(&client, 0, 1).unwrap().transfers,
        vec![transfer("ESCROW", "FREELANCER", 199)]
    );
    contract.initialize(address("COLLECTOR"));
    assert_eq!(
        contract.approve_milestone(&client, 0, 0).unwrap().transfers,
        vec![transfer("ESCROW", "FREELANCER", 199), transfer("ESCROW", "COLLECTOR", 1)]
    );
}

#[test]
fn fee_overflow_is_refused() {
    let mut contract = contract();
    let (client, freelancer) = (address("CLIENT"), address("FREELANCER"));
    open(&mut contract, &[i128::MAX / 50 + 1, i128::MAX / 50]).unwrap();
    contract.submit_milestone(&freelancer, 0, 0, 1).unwrap();
    contract.submit_milestone(&freelancer, 0, 1, 1).unwrap();
    assert_eq!(contract.approve_milestone(&client, 0, 0).err(), Some(GigGuardError::FeeOverflow));
    assert_eq!(
        contract.claim_timeout(&freelancer, 0, 0, 300_000).err(),
        Some(GigGuardError::FeeOverflow)
    );
    let paid = contract.approve_milestone(&client, 0, 1).unwrap().transfers;
    assert_eq!(paid[0].amount + paid[1].amount, i128::MAX / 50);
}

#[test]
fn dispute_freezes_a_milestone() {
    let mut contract = contract();
    let (client, freelancer) = (address("CLIENT"), address("FREELANCER"));
    open(&mut contract, &[10_000]).unwrap();
    contract.submit_milestone(&freelancer, 0, 0, 1).unwrap();
    let effects = contract.dispute_milestone(&client, 0, 0).unwrap();
    assert_eq!(effects, Effects { transfers: vec![], writes: vec![DataKey::Job(0)] });
    assert_eq!(
        contract.claim_timeout(&freelancer, 0, 0, u64::MAX).err(),
        Some(GigGuardError::NotClaimable)
    );
    assert_eq!(contract.approve_milestone(&client, 0, 0).err(), Some(GigGuardError::NotSubmitted));
}

#[test]
fn a_call_needs_only_its_own_job() {
    let mut whole = contract();
    open(&mut whole, &[10_000]).unwrap();
    open(&mut whole, &[20_000]).unwrap();
    let mut part = contract();
    part.job_count = whole.job_count;
    part.jobs.insert(1, job(&whole, 1));
    let freelancer = address("FREELANCER");
    let effects = whole.submit_milestone(&freelancer, 1, 0, 3).unwrap();
    assert_eq!(part.submit_milestone(&freelancer, 1, 0, 3).unwrap(), effects);
    assert_eq!(job(&part, 1), job(&whole, 1));
}

#[test]
fn initializing_anew_sets_the_counter_back() {
    let mut contract = contract();
    open(&mut contract, &[10]).unwrap();
    contract.initialize(address("SECOND"));
    assert_eq!(contract.get_job_count(), 0);
    assert_eq!(job(&contract, 0).total_amount, 10);
    assert_eq!(open(&mut contract, &[11]), Ok(0));
    assert_eq!(job(&contract, 0).total_amount, 11);
}

#[test]
fn fees_are_rounded_towards_zero() {
    assert_eq!(split(2_500_000_000, 50), Some(Split { payout: 2_487_500_000, fee: 12_500_000 }));
    assert_eq!(split(199, 50), Some(Split { payout: 199, fee: 0 }));
    assert_eq!(split(399, 50), Some(Split { payout: 398, fee: 1 }));
    assert_eq!(split(0, 50), Some(Split { payout: 0, fee: 0 }));
    assert_eq!(split(100, 10_000), Some(Split { payout: 0, fee: 100 }));
    assert_eq!(split(100, 20_000), Some(Split { payout: -100, fee: 200 }));
    assert_eq!(split(-399, 50), Some(Split { payout: -398, fee: -1 }));
    assert_eq!(split(i128::MIN, 1), Some(Split {
        payout: i128::MIN - i128::MIN / 10_000,
        fee: i128::MIN / 10_000,
    }));
    assert_eq!(split(i128::MAX, 2), None);
    assert_eq!(split(i128::MIN, 2), None);
}

#[test]
fn reasons_have_their_texts() {
    let texts = [
        (GigGuardError::MismatchedMilestones, "Mismatched milestone data"),
        (GigGuardError::NoMilestones, "Must have at least one milestone"),
        (GigGuardError::NonPositiveAmount, "Milestone amount must be positive"),
        (GigGuardError::JobNotFound, "Job not found"),
        (GigGuardError::JobNotActive, "Job is not active"),
        (GigGuardError::NotTheFreelancer, "Not the assigned freelancer for this job"),
        (GigGuardError::NotTheClient, "Not the client for this job"),
        (GigGuardError::InvalidMilestoneIndex, "Invalid milestone index"),
        (GigGuardError::NotPending, "Milestone is not in pending state"),
        (GigGuardError::NotSubmitted, "Milestone has not been submitted yet"),
        (GigGuardError::NotDisputable, "Can only dispute submitted milestones"),
        (GigGuardError::NotClaimable, "Milestone must be in submitted state to claim timeout"),
        (GigGuardError::TimeoutNotReached, "72-hour timeout has not been reached yet"),
        (GigGuardError::FeeCollectorNotSet, "Fee collector not set"),
    ];
    for (reason, text) in texts {
        assert_eq!(reason.message(), text);
    }
}

#[test]
fn terms_stay_through_a_whole_job() {
    let mut contract = contract();
    let (client, freelancer) = (address("CLIENT"), address("FREELANCER"));
    open(&mut contract, &[300, 500]).unwrap();
    let first = job(&contract, 0);
    contract.submit_milestone(&freelancer, 0, 0, 11).unwrap();
    contract.submit_milestone(&freelancer, 0, 1, 12).unwrap();
    contract.approve_milestone(&client, 0, 0).unwrap();
    contract.dispute_milestone(&client, 0, 1).unwrap();
    open(&mut contract, &[700]).unwrap();
    let mut expected = first;
    expected.milestones[0].status = MilestoneStatus::Approved;
    expected.milestones[0].submitted_at = 11;
    expected.milestones[1].status = MilestoneStatus::Disputed;
    expected.milestones[1].submitted_at = 12;
    assert_eq!(job(&contract, 0), expected);
}

#[test]
fn count_since_deployment_is_of_accepted_creations() {
    let mut contract = GigGuardContract::new(address("ESCROW"));
    contract.initialize(address("COLLECTOR"));
    assert_eq!(open(&mut contract, &[1]), Ok(0));
    assert_eq!(open(&mut contract, &[0]), Err(GigGuardError::NonPositiveAmount));
    assert_eq!(open(&mut contract, &[2]), Ok(1));
    assert_eq!(contract.get_job_count(), 2);
    for job_id in [0, 1] {
        assert_eq!(contract.get_job(job_id).is_ok(), true);
    }
    for job_id in [2, 3, u64::MAX] {
        assert_eq!(contract.get_job(job_id).err(), Some(GigGuardError::JobNotFound));
    }
}
