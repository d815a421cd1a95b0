//! The escrow against the Soroban host: job arguments in the host's collections, and payments in
//! a token contract of the host.
use gigguard::{Address, Effects, GigGuardContract, GigGuardError, MilestoneStatus};
use soroban_sdk::testutils::{Address as _, EnvTestConfig};
use soroban_sdk::{token, Address as HostAddress, Env, IntoVal, TryFromVal, Val};

/// A host with a token, and an initialized contract whose client owns 10,000 USDC.
struct Setup {
    env: Env,
    contract: GigGuardContract,
    contract_addr: HostAddress,
    token_addr: HostAddress,
    client: HostAddress,
    freelancer: HostAddress,
    fee_collector: HostAddress,
}

fn new_env() -> Env {
    let env = Env::new_with_config(EnvTestConfig { capture_snapshot_at_drop: false });
    env.mock_all_auths();
    env
}

/// The library's form of a host address.
fn plain(address: &HostAddress) -> Address {
    Address { strkey: address.to_string().to_string() }
}

/// The host's form of an address.
fn host(env: &Env, address: &Address) -> HostAddress {
    HostAddress::from_str(env, &address.strkey)
}

fn setup() -> Setup {
    let env = new_env();
    let contract_addr = HostAddress::generate(&env);
    let fee_collector = HostAddress::generate(&env);
    let client = HostAddress::generate(&env);
    let freelancer = HostAddress::generate(&env);
    let token_admin = HostAddress::generate(&env);
    let token_addr = env.register_stellar_asset_contract_v2(token_admin).address();
    token::StellarAssetClient::new(&env, &token_addr).mint(&client, &100_000_000_000i128);
    let mut contract = GigGuardContract::new(plain(&contract_addr));
    let effects = contract.initialize(plain(&fee_collector));
    assert_eq!(effects.transfers.len(), 0);
    Setup { env, contract, contract_addr, token_addr, client, freelancer, fee_collector }
}

fn host_amounts(env: &Env, amounts: &[i128]) -> soroban_sdk::Vec<i128> {
    soroban_sdk::Vec::from_slice(env, amounts)
}

fn host_texts(env: &Env, texts: &[&str]) -> soroban_sdk::Vec<soroban_sdk::String> {
    let mut items = soroban_sdk::Vec::new(env);
    for text in texts {
        items.push_back(soroban_sdk::String::from_str(env, text));
    }
    items
}

fn text_item(env: &Env, text: &str) -> Val {
    soroban_sdk::String::from_str(env, text).into_val(env)
}

impl Setup {
    /// Makes the payments of an accepted call; panics with the reason of a refused one.
    fn carry_out(&self, result: Result<Effects, GigGuardError>) {
        let effects = match result {
            Ok(effects) => effects,
            Err(reason) => panic!("{}", reason.message()),
        };
        for transfer in &effects.transfers {
            token::Client::new(&self.env, &host(&self.env, &transfer.token)).transfer(
                &host(&self.env, &transfer.from),
                &host(&self.env, &transfer.to),
                &transfer.amount,
            );
        }
    }

    fn balance(&self, address: &HostAddress) -> i128 {
        token::Client::new(&self.env, &self.token_addr).balance(address)
    }

    fn create(
        &mut self,
        amounts: &soroban_sdk::Vec<i128>,
        texts: &soroban_sdk::Vec<soroban_sdk::String>,
    ) -> Result<u64, GigGuardError> {
        let (client, freelancer, token) =
            (plain(&self.client), plain(&self.freelancer), plain(&self.token_addr));
        let (job_id, effects) =
            self.contract.create_job(client, freelancer, token, amounts, texts)?;
        self.carry_out(Ok(effects));
        Ok(job_id)
    }

    /// A job of two milestones: $250 + $250 = $500 USDC.
    fn create_standard_job(&mut self) -> u64 {
        let amounts = host_amounts(&self.env, &[2_500_000_000i128, 2_500_000_000i128]);
        let texts = host_texts(&self.env, &["Homepage design", "Full website build"]);
        self.create(&amounts, &texts).unwrap()
    }

    fn submit(&mut self, job_id: u64, milestone_index: u32, now: u64) {
        let freelancer = plain(&self.freelancer);
        let result = self.contract.submit_milestone(&freelancer, job_id, milestone_index, now);
        self.carry_out(result);
    }

    fn approve(&mut self, client: &HostAddress, job_id: u64, milestone_index: u32) {
        let result = self.contract.approve_milestone(&plain(client), job_id, milestone_index);
        self.carry_out(result);
    }

    fn claim(&mut self, job_id: u64, milestone_index: u32, now: u64) {
        let freelancer = plain(&self.freelancer);
        let result = self.contract.claim_timeout(&freelancer, job_id, milestone_index, now);
        self.carry_out(result);
    }

    fn dispute(&mut self, job_id: u64, milestone_index: u32) {
        let client = plain(&self.client);
        let result = self.contract.dispute_milestone(&client, job_id, milestone_index);
        self.carry_out(result);
    }

    fn status(&self, job_id: u64, milestone_index: usize) -> MilestoneStatus {
        self.contract.get_job(job_id).unwrap().milestones[milestone_index].status
    }
}

#[test]
fn test_happy_path_create_submit_approve() {
    let mut setup = setup();
    let job_id = setup.create_standard_job();
    setup.submit(job_id, 0u32, 0);
    let client = setup.client.clone();
    setup.approve(&client, job_id, 0u32);
    // $250 less the fee of 0.5%
    let freelancer_balance = setup.balance(&setup.freelancer);
    assert_eq!(freelancer_balance, 2_487_500_000i128);
    let fee_balance = setup.balance(&setup.fee_collector);
    assert_eq!(fee_balance, 12_500_000i128);
    let job = setup.contract.get_job(job_id).unwrap();
    assert_eq!(job.milestones.get(0).unwrap().status, MilestoneStatus::Approved);
    // The second milestone stays locked.
    assert_eq!(setup.balance(&setup.contract_addr), 2_500_000_000i128);
}

#[test]
#[should_panic(expected = "Not the client for this job")]
fn test_unauthorized_approve_rejected() {
    let mut setup = setup();
    let job_id = setup.create_standard_job();
    setup.submit(job_id, 0u32, 0);
    let impostor = HostAddress::generate(&setup.env);
    setup.approve(&impostor, job_id, 0u32);
}

#[test]
fn test_state_correct_after_job_creation() {
    let mut setup = setup();
    let job_id = setup.create_standard_job();
    let job = setup.contract.get_job(job_id).unwrap();
    assert_eq!(job.client, plain(&setup.client));
    assert_eq!(job.freelancer, plain(&setup.freelancer));
    assert_eq!(job.token, plain(&setup.token_addr));
    assert_eq!(job.total_amount, 5_000_000_000i128); // $500 total
    assert_eq!(job.is_active, true);
    assert_eq!(job.fee_bps, 50); // 0.5%
    assert_eq!(job.milestones.len(), 2);
    let m0 = job.milestones.get(0).unwrap();
    assert_eq!(m0.description, b"Homepage design");
    assert_eq!(m0.amount, 2_500_000_000i128); // $250
    assert_eq!(m0.status, MilestoneStatus::Pending);
    assert_eq!(m0.submitted_at, 0);
    let m1 = job.milestones.get(1).unwrap();
    assert_eq!(m1.description, b"Full website build");
    assert_eq!(m1.amount, 2_500_000_000i128); // $250
    assert_eq!(m1.status, MilestoneStatus::Pending);
    // The client started with 100_000_000_000 and deposited 5_000_000_000.
    let client_balance = setup.balance(&setup.client);
    assert_eq!(client_balance, 95_000_000_000i128);
    assert_eq!(setup.balance(&setup.contract_addr), 5_000_000_000i128);
    let count = setup.contract.get_job_count();
    assert_eq!(count, 1);
}

#[test]
fn test_timeout_auto_release_after_72_hours() {
    let mut setup = setup();
    let job_id = setup.create_standard_job();
    setup.submit(job_id, 0u32, 1_000_000);
    let job = setup.contract.get_job(job_id).unwrap();
    assert_eq!(job.milestones.get(0).unwrap().submitted_at, 1_000_000);
    // 72 hours and one second later
    setup.claim(job_id, 0u32, 1_000_000 + 259_201);
    let freelancer_balance = setup.balance(&setup.freelancer);
    assert_eq!(freelancer_balance, 2_487_500_000i128);
    let job = setup.contract.get_job(job_id).unwrap();
    assert_eq!(job.milestones.get(0).unwrap().status, MilestoneStatus::Released);
}

#[test]
#[should_panic(expected = "Milestone must be in submitted state to claim timeout")]
fn test_dispute_blocks_timeout_claim() {
    let mut setup = setup();
    let job_id = setup.create_standard_job();
    setup.submit(job_id, 0u32, 1_000_000);
    setup.dispute(job_id, 0u32);
    let job = setup.contract.get_job(job_id).unwrap();
    assert_eq!(job.milestones.get(0).unwrap().status, MilestoneStatus::Disputed);
    // Well past 72 hours
    setup.claim(job_id, 0u32, 1_000_000 + 300_000);
}

#[test]
fn balance_covers_the_escrow_through_a_whole_job() {
    let mut setup = setup();
    let amounts = host_amounts(&setup.env, &[1_000, 199, 20_001]);
    let texts = host_texts(&setup.env, &["a", "b", "c"]);
    let job_id = setup.create(&amounts, &texts).unwrap();
    assert_eq!(setup.balance(&setup.contract_addr), 21_200);
    setup.submit(job_id, 0, 10);
    setup.submit(job_id, 1, 20);
    setup.submit(job_id, 2, 30);
    let client = setup.client.clone();
    setup.approve(&client, job_id, 0);
    assert_eq!(setup.balance(&setup.freelancer), 995);
    assert_eq!(setup.balance(&setup.fee_collector), 5);
    assert_eq!(setup.balance(&setup.contract_addr), 20_200);
    // No fee on an amount below 200
    setup.claim(job_id, 1, 20 + 259_200);
    assert_eq!(setup.balance(&setup.freelancer), 995 + 199);
    assert_eq!(setup.balance(&setup.fee_collector), 5);
    // A dispute pays nobody.
    setup.dispute(job_id, 2);
    assert_eq!(setup.balance(&setup.contract_addr), 20_001);
    assert_eq!(setup.status(job_id, 0), MilestoneStatus::Approved);
    assert_eq!(setup.status(job_id, 1), MilestoneStatus::Released);
    assert_eq!(setup.status(job_id, 2), MilestoneStatus::Disputed);
}

#[test]
fn approval_of_the_only_milestone_completes_the_job() {
    let mut setup = setup();
    let amounts = host_amounts(&setup.env, &[1_000]);
    let texts = host_texts(&setup.env, &["a"]);
    let job_id = setup.create(&amounts, &texts).unwrap();
    assert_eq!(setup.contract.get_job(job_id).unwrap().is_active, true);
    setup.submit(job_id, 0, 0);
    assert_eq!(setup.contract.get_job(job_id).unwrap().is_active, true);
    let client = setup.client.clone();
    setup.approve(&client, job_id, 0);
    assert_eq!(setup.contract.get_job(job_id).unwrap().is_active, false);
    assert_eq!(setup.balance(&setup.contract_addr), 0);
}

#[test]
fn descriptions_need_not_be_utf8() {
    let mut setup = setup();
    let amounts = host_amounts(&setup.env, &[7]);
    let raw = [0xffu8, 0x00, 0xfe];
    let texts = soroban_sdk::Vec::from_array(
        &setup.env,
        [soroban_sdk::String::from_bytes(&setup.env, &raw)],
    );
    let job_id = setup.create(&amounts, &texts).unwrap();
    assert_eq!(setup.contract.get_job(job_id).unwrap().milestones[0].description, raw);
}

#[test]
fn host_collections_of_wrong_size_are_refused() {
    let mut setup = setup();
    let one = host_amounts(&setup.env, &[5]);
    let none = host_amounts(&setup.env, &[]);
    let two_texts = host_texts(&setup.env, &["a", "b"]);
    let no_texts = host_texts(&setup.env, &[]);
    assert_eq!(setup.create(&one, &two_texts), Err(GigGuardError::MismatchedMilestones));
    assert_eq!(setup.create(&none, &no_texts), Err(GigGuardError::NoMilestones));
    assert_eq!(setup.contract.get_job_count(), 0);
}

#[test]
fn items_of_wrong_type_are_refused() {
    let mut setup = setup();
    let env = setup.env.clone();
    let good: Val = 5i128.into_val(&env);
    let huge: Val = i128::MAX.into_val(&env);
    let bad: Val = true.into_val(&env);
    let texts = host_texts(&env, &["a", "b"]);
    let mixed = |items: [Val; 2]| {
        let items = soroban_sdk::Vec::<Val>::from_array(&env, items);
        soroban_sdk::Vec::<i128>::try_from_val(&env, &items.to_val()).unwrap()
    };
    let undecodable = Err(GigGuardError::UndecodableMilestone);
    assert_eq!(setup.create(&mixed([good, bad]), &texts), undecodable);
    assert_eq!(setup.create(&mixed([bad, good]), &texts), undecodable);
    // The faults of the amounts before the item come first.
    let zero: Val = 0i128.into_val(&env);
    assert_eq!(
        setup.create(&mixed([zero, bad]), &texts),
        Err(GigGuardError::NonPositiveAmount)
    );
    assert_eq!(setup.create(&mixed([bad, zero]), &texts), undecodable);
    assert_eq!(setup.create(&mixed([huge, good]), &texts), Err(GigGuardError::TotalOverflow));
    let amounts = host_amounts(&env, &[5, 6]);
    let items = soroban_sdk::Vec::<Val>::from_array(&env, [text_item(&env, "a"), good]);
    let bad_texts =
        soroban_sdk::Vec::<soroban_sdk::String>::try_from_val(&env, &items.to_val()).unwrap();
    assert_eq!(setup.create(&amounts, &bad_texts), undecodable);
    assert_eq!(setup.contract.get_job_count(), 0);
    assert_eq!(setup.balance(&setup.client), 100_000_000_000);
}
