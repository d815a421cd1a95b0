//! What holds of the contract's entries in the ledger: which of them a call reads and writes, and
//! what a query gives back of a creation.
use vstd::prelude::*;

use crate::error::GigGuardError;
use crate::funds::law_payout_by_payee;
use crate::laws::{after, initialized_first, run, step, well_formed, Call};
use crate::model::{
    amounts_fault, approve, claim, create, create_from_items, decoded, find_job, initialized,
    job_count, lemma_amounts_accepted, new_job, total, LedgerModel, Outcome,
};
use crate::types::{DataKey, JobModel};

verus! {

// ---------------------------------------------------------------------------------------------
// Initialization
// ---------------------------------------------------------------------------------------------
/// After initialization with an address, whatever the address and the storage before, the fee
/// collector is that address and the count is zero. The contract's own address and the jobs are as
/// they were.
pub proof fn law_initialization(ledger: LedgerModel, fee_collector: Seq<char>)
    ensures
        initialized(ledger, fee_collector).fee_collector == Some(fee_collector),
        initialized(ledger, fee_collector).job_count == Some(0u64),
        initialized(ledger, fee_collector).address == ledger.address,
        initialized(ledger, fee_collector).jobs == ledger.jobs,
{
}

/// The last initialization decides: what an earlier one stored leaves no trace.
pub proof fn law_last_initialization_decides(
    ledger: LedgerModel,
    earlier: Seq<char>,
    last: Seq<char>,
)
    ensures
        initialized(initialized(ledger, earlier), last) == initialized(ledger, last),
{
}

/// The fee collector stays the one that it is over any calls other than initialization, and so
/// does the contract's own address.
pub proof fn law_fee_collector_stays(ledger: LedgerModel, calls: Seq<Call>)
    requires
        without_initialize(calls),
    ensures
        run(ledger, calls).fee_collector == ledger.fee_collector,
        run(ledger, calls).address == ledger.address,
    decreases calls.len(),
{
    if calls.len() > 0 {
        lemma_without_last(calls);
        law_fee_collector_stays(ledger, calls.drop_last());
        assert(!(calls[calls.len() - 1] is Initialize));
    }
}

/// The fees go to the address that the contract was initialized with: after any calls other than
/// another initialization, an accepted approval or claim pays the job's freelancer first, and
/// whatever else it pays goes to that address.
pub proof fn law_fees_go_to_the_collector(
    ledger: LedgerModel,
    fee_collector: Seq<char>,
    calls: Seq<Call>,
    caller: Seq<char>,
    job_id: u64,
    milestone_index: u32,
    now: u64,
    outcome: Outcome<()>,
)
    requires
        without_initialize(calls),
        outcome is Ok,
        ({
            let later = run(initialized(ledger, fee_collector), calls);
            ||| outcome == approve(later, caller, job_id, milestone_index)
            ||| outcome == claim(later, caller, job_id, milestone_index, now)
        }),
    ensures
        ({
            let later = run(initialized(ledger, fee_collector), calls);
            let paid = outcome->Ok_0.2.transfers;
            &&& paid.len() > 0
            &&& paid[0].to == later.jobs[job_id].freelancer
            &&& forall|i: int| 0 < i < paid.len() ==> (#[trigger] paid[i]).to == fee_collector
        }),
{
    law_fee_collector_stays(initialized(ledger, fee_collector), calls);
    let later = run(initialized(ledger, fee_collector), calls);
    law_payout_by_payee(later, caller, job_id, milestone_index, now, outcome);
}

/// Whether none of the calls initializes the contract.
pub open spec fn without_initialize(calls: Seq<Call>) -> bool {
    forall|i: int| 0 <= i < calls.len() ==> !(#[trigger] calls[i] is Initialize)
}

/// Nor does any of the calls without the last one.
pub proof fn lemma_without_last(calls: Seq<Call>)
    requires
        without_initialize(calls),
        calls.len() > 0,
    ensures
        without_initialize(calls.drop_last()),
{
    assert forall|i: int| 0 <= i < calls.drop_last().len() implies !(
    #[trigger] calls.drop_last()[i] is Initialize) by {
        assert(!(calls[i] is Initialize));
    }
}

// ---------------------------------------------------------------------------------------------
// Creation and queries
// ---------------------------------------------------------------------------------------------
/// A query finds a job exactly if one is stored under the ID, and gives it back as it is stored.
/// The count is the stored counter, or zero where none is stored.
pub proof fn law_queries_read_the_entries(ledger: LedgerModel, job_id: u64)
    ensures
        find_job(ledger, job_id) is Ok <==> ledger.jobs.contains_key(job_id),
        find_job(ledger, job_id) matches Ok(job) ==> job == ledger.jobs[job_id],
        find_job(ledger, job_id) matches Err(reason) ==> reason is JobNotFound,
        ledger.job_count matches Some(count) ==> job_count(ledger) == count,
        ledger.job_count is None ==> job_count(ledger) == 0,
{
}

/// A total grows by each amount that is added, from zero on.
pub proof fn law_total_adds_up(amounts: Seq<i128>, amount: i128)
    ensures
        total(Seq::<i128>::empty()) == 0,
        total(amounts.push(amount)) == total(amounts) + amount,
{
    assert(amounts.push(amount).drop_last() =~= amounts);
}

/// Whether the first `n` amounts are positive, with a total that an `i128` holds.
pub open spec fn sound_up_to(amounts: Seq<i128>, n: int) -> bool {
    &&& forall|i: int| 0 <= i < n ==> #[trigger] amounts[i] > 0
    &&& total(amounts.take(n)) <= i128::MAX
}

/// The fault of some amounts is that of the first after which they are not sound: it is not
/// positive, or with it the total is too large.
pub proof fn law_first_fault(amounts: Seq<i128>)
    ensures
        amounts_fault(amounts) is None <==> sound_up_to(amounts, amounts.len() as int),
        amounts_fault(amounts) == Some(GigGuardError::NonPositiveAmount) <==> exists|i: int|
            0 <= i < amounts.len() && #[trigger] sound_up_to(amounts, i) && amounts[i] <= 0,
        amounts_fault(amounts) == Some(GigGuardError::TotalOverflow) <==> exists|i: int|
            0 <= i < amounts.len() && #[trigger] sound_up_to(amounts, i) && amounts[i] > 0 && total(
                amounts.take(i),
            ) + amounts[i] > i128::MAX,
        amounts_fault(amounts) matches Some(fault) ==> fault is NonPositiveAmount
            || fault is TotalOverflow,
    decreases amounts.len(),
{
    assert(amounts.take(amounts.len() as int) =~= amounts);
    lemma_amounts_accepted(amounts);
    if amounts.len() > 0 {
        let front = amounts.drop_last();
        let n = front.len() as int;
        law_first_fault(front);
        assert forall|i: int| 0 <= i <= n implies #[trigger] sound_up_to(amounts, i) == sound_up_to(
            front,
            i,
        ) by {
            lemma_sound_in_front(amounts, i);
        }
        assert forall|i: int| 0 <= i < n implies #[trigger] amounts.take(i) == front.take(i) by {
            assert(amounts.take(i) =~= front.take(i));
        }
        assert(amounts.take(n) =~= front);
        assert(front.take(n) =~= front);
        if amounts_fault(front) is None {
            assert(sound_up_to(amounts, n));
            assert forall|i: int| 0 <= i < n && sound_up_to(front, i) implies front[i] > 0 && total(
                front.take(i),
            ) + front[i] <= i128::MAX by {
                if front[i] <= 0 {
                    assert(amounts_fault(front) == Some(GigGuardError::NonPositiveAmount));
                }
            }
        } else if amounts_fault(front) == Some(GigGuardError::NonPositiveAmount) {
            let i = choose|i: int|
                0 <= i < front.len() && #[trigger] sound_up_to(front, i) && front[i] <= 0;
            assert(sound_up_to(amounts, i) && amounts[i] <= 0);
        } else {
            let i = choose|i: int|
                0 <= i < front.len() && #[trigger] sound_up_to(front, i) && front[i] > 0 && total(
                    front.take(i),
                ) + front[i] > i128::MAX;
            assert(sound_up_to(amounts, i) && amounts[i] > 0);
        }
    }
}

proof fn lemma_sound_in_front(amounts: Seq<i128>, n: int)
    requires
        0 <= n < amounts.len(),
    ensures
        sound_up_to(amounts, n) == sound_up_to(amounts.drop_last(), n),
{
    let front = amounts.drop_last();
    assert(amounts.take(n) =~= front.take(n));
    if forall|i: int| 0 <= i < n ==> #[trigger] front[i] > 0 {
        assert forall|i: int| 0 <= i < n implies #[trigger] amounts[i] > 0 by {
            assert(front[i] > 0);
        }
    }
    if forall|i: int| 0 <= i < n ==> #[trigger] amounts[i] > 0 {
        assert forall|i: int| 0 <= i < n implies #[trigger] front[i] > 0 by {
            assert(amounts[i] > 0);
        }
    }
}

/// A job can be created exactly from milestones with as many amounts as descriptions, at least
/// one, all positive, with a total that an `i128` holds, while the counter can move on.
pub proof fn law_creation_accepted(
    ledger: LedgerModel,
    client: Seq<char>,
    freelancer: Seq<char>,
    token: Seq<char>,
    amounts: Seq<i128>,
    descriptions: Seq<Seq<u8>>,
)
    ensures
        create(ledger, client, freelancer, token, amounts, descriptions) is Ok <==> {
            &&& amounts.len() == descriptions.len()
            &&& amounts.len() > 0
            &&& forall|i: int| 0 <= i < amounts.len() ==> #[trigger] amounts[i] > 0
            &&& total(amounts) <= i128::MAX
            &&& job_count(ledger) < u64::MAX
        },
{
    lemma_amounts_accepted(amounts);
}

/// A creation that is not accepted is refused for the first that applies: not as many amounts as
/// descriptions, no milestone, the first fault of the amounts, and a counter at its last value.
pub proof fn law_creation_refused(
    ledger: LedgerModel,
    client: Seq<char>,
    freelancer: Seq<char>,
    token: Seq<char>,
    amounts: Seq<i128>,
    descriptions: Seq<Seq<u8>>,
)
    ensures
        ({
            let outcome = create(ledger, client, freelancer, token, amounts, descriptions);
            let paired = amounts.len() == descriptions.len();
            let sound = paired && amounts.len() > 0 && sound_up_to(amounts, amounts.len() as int);
            &&& (outcome matches Err(GigGuardError::MismatchedMilestones)) <==> !paired
            &&& (outcome matches Err(GigGuardError::NoMilestones)) <==> paired && amounts.len() == 0
            &&& (outcome matches Err(GigGuardError::NonPositiveAmount)) <==> paired && exists|
                i: int,
            |
                0 <= i < amounts.len() && #[trigger] sound_up_to(amounts, i) && amounts[i] <= 0
            &&& (outcome matches Err(GigGuardError::TotalOverflow)) <==> paired && exists|i: int|
                0 <= i < amounts.len() && #[trigger] sound_up_to(amounts, i) && amounts[i] > 0
                    && total(amounts.take(i)) + amounts[i] > i128::MAX
            &&& (outcome matches Err(GigGuardError::JobCountOverflow)) <==> sound
                && ledger.job_count == Some(u64::MAX)
            &&& outcome is Ok <==> sound && ledger.job_count != Some(u64::MAX)
        }),
{
    law_first_fault(amounts);
}

/// After a creation, the job is found under the ID that was returned, as it was given: with its
/// client, freelancer and token, with each amount and description at its place, every milestone
/// pending and not submitted, the job active, at 50 basis points. The ID is the former count of
/// jobs, the count is one more, and every other job is found as before. In well-formed storage the
/// ID was free. The one payment is the total, from the client to the contract.
pub proof fn law_created_job_is_found(
    ledger: LedgerModel,
    client: Seq<char>,
    freelancer: Seq<char>,
    token: Seq<char>,
    amounts: Seq<i128>,
    descriptions: Seq<Seq<u8>>,
    other: u64,
)
    ensures
        match create(ledger, client, freelancer, token, amounts, descriptions) {
            Ok((job_id, next, effects)) => {
                let job = next.jobs[job_id];
                &&& job_id == job_count(ledger)
                &&& job_count(next) == job_id + 1
                &&& find_job(next, job_id) == Ok::<_, GigGuardError>(
                    new_job(client, freelancer, token, amounts, descriptions),
                )
                &&& find_job(next, job_id) == Ok::<_, GigGuardError>(job)
                &&& job.client == client
                &&& job.freelancer == freelancer
                &&& job.token == token
                &&& job.total_amount == total(amounts)
                &&& job.is_active
                &&& job.fee_bps == 50
                &&& job.milestones.len() == amounts.len()
                &&& forall|i: int|
                    0 <= i < amounts.len() ==> {
                        let milestone = #[trigger] job.milestones[i];
                        &&& milestone.amount == amounts[i]
                        &&& milestone.description == descriptions[i]
                        &&& milestone.status is Pending
                        &&& milestone.submitted_at == 0
                    }
                &&& next.jobs.dom() == ledger.jobs.dom().insert(job_id)
                &&& other != job_id ==> find_job(next, other) == find_job(ledger, other)
                &&& well_formed(ledger) ==> find_job(ledger, job_id) == Err::<JobModel, _>(
                    GigGuardError::JobNotFound,
                )
                &&& next.job_count is Some
                &&& next.fee_collector == ledger.fee_collector
                &&& next.address == ledger.address
                &&& effects.transfers.len() == 1
                &&& effects.transfers[0].token == token
                &&& effects.transfers[0].from == client
                &&& effects.transfers[0].to == ledger.address
                &&& effects.transfers[0].amount == total(amounts)
                &&& effects.writes == seq![DataKey::Job(job_id), DataKey::JobCount]
            },
            Err(_) => true,
        },
{
    lemma_amounts_accepted(amounts);
    if let Ok((job_id, next, _)) = create(
        ledger,
        client,
        freelancer,
        token,
        amounts,
        descriptions,
    ) {
        assert(next.jobs.dom() =~= ledger.jobs.dom().insert(job_id));
    }
}

/// How many of the calls created a job.
pub open spec fn creations(ledger: LedgerModel, calls: Seq<Call>) -> int
    decreases calls.len(),
{
    if calls.len() == 0 {
        0
    } else {
        let before = run(ledger, calls.drop_last());
        creations(ledger, calls.drop_last()) + if calls.last() is CreateJob && step(
            before,
            calls.last(),
        ) is Ok {
            1int
        } else {
            0int
        }
    }
}

/// Whether the jobs that are found are exactly those with an ID below the count.
pub open spec fn ids_are_counted(ledger: LedgerModel) -> bool {
    forall|job_id: u64| #[trigger]
        ledger.jobs.contains_key(job_id) <==> job_id < job_count(ledger)
}

/// The count is the number of jobs created, and the jobs that are found are exactly those with an
/// ID below it: from any storage of which that holds, if the contract is initialized only before
/// its first job.
pub proof fn law_count_is_of_creations(ledger: LedgerModel, calls: Seq<Call>)
    requires
        ids_are_counted(ledger),
        initialized_first(ledger, calls),
    ensures
        job_count(run(ledger, calls)) == job_count(ledger) + creations(ledger, calls),
        ids_are_counted(run(ledger, calls)),
    decreases calls.len(),
{
    if calls.len() > 0 {
        let before = run(ledger, calls.drop_last());
        law_count_is_of_creations(ledger, calls.drop_last());
        if calls.last() is Initialize {
            // Without a job the count is zero already.
            assert(!before.jobs.contains_key(0));
        }
    }
}

/// Of a contract that started with empty storage, the count is the number of jobs created since,
/// and a job is found exactly if its ID is below the count.
pub proof fn law_count_since_deployment(ledger: LedgerModel, calls: Seq<Call>, job_id: u64)
    requires
        ledger.jobs == Map::<u64, JobModel>::empty(),
        ledger.job_count is None,
        initialized_first(ledger, calls),
    ensures
        job_count(run(ledger, calls)) == creations(ledger, calls),
        find_job(run(ledger, calls), job_id) is Ok <==> job_id < creations(ledger, calls),
{
    law_count_is_of_creations(ledger, calls);
}

/// In any storage, calls other than initialization move the count on by the number of jobs that
/// they create.
pub proof fn law_count_grows_by_creations(ledger: LedgerModel, calls: Seq<Call>)
    requires
        without_initialize(calls),
    ensures
        job_count(run(ledger, calls)) == job_count(ledger) + creations(ledger, calls),
    decreases calls.len(),
{
    if calls.len() > 0 {
        lemma_without_last(calls);
        law_count_grows_by_creations(ledger, calls.drop_last());
        assert(!(calls[calls.len() - 1] is Initialize));
    }
}

/// Items that all have a value are taken for these values.
pub proof fn law_items_with_values(
    ledger: LedgerModel,
    client: Seq<char>,
    freelancer: Seq<char>,
    token: Seq<char>,
    amounts: Seq<i128>,
    descriptions: Seq<Seq<u8>>,
)
    ensures
        create_from_items(
            ledger,
            client,
            freelancer,
            token,
            amounts.map_values(|amount: i128| Some(amount)),
            descriptions.map_values(|text: Seq<u8>| Some(text)),
        ) == create(ledger, client, freelancer, token, amounts, descriptions),
{
    lemma_decoded_values(amounts);
    lemma_decoded_values(descriptions);
}

proof fn lemma_decoded_values<T>(values: Seq<T>)
    ensures
        decoded(values.map_values(|value: T| Some(value))) == values,
    decreases values.len(),
{
    let items = values.map_values(|value: T| Some(value));
    if values.len() > 0 {
        lemma_decoded_values(values.drop_last());
        assert(items.drop_last() =~= values.drop_last().map_values(|value: T| Some(value)));
        assert(values.drop_last().push(values.last()) =~= values);
    } else {
        assert(decoded(items) =~= values);
    }
}

/// Items of which one has no value never make a job.
pub proof fn law_items_without_value(
    ledger: LedgerModel,
    client: Seq<char>,
    freelancer: Seq<char>,
    token: Seq<char>,
    amounts: Seq<Option<i128>>,
    descriptions: Seq<Option<Seq<u8>>>,
    i: int,
)
    requires
        0 <= i < amounts.len(),
        i < descriptions.len(),
        amounts[i] is None || descriptions[i] is None,
    ensures
        create_from_items(ledger, client, freelancer, token, amounts, descriptions) is Err,
{
    lemma_decoded_short(amounts, i);
    lemma_decoded_short(descriptions, i);
}

/// What is decoded of some items are the values of those before the first that has none, in order,
/// or of all of them.
pub proof fn law_decoded_up_to_the_first_without<T>(items: Seq<Option<T>>)
    ensures
        decoded(items).len() <= items.len(),
        forall|i: int|
            0 <= i < decoded(items).len() ==> items[i] == Some(#[trigger] decoded(items)[i]),
        decoded(items).len() < items.len() ==> items[decoded(items).len() as int] is None,
    decreases items.len(),
{
    if items.len() > 0 {
        let front = items.drop_last();
        law_decoded_up_to_the_first_without(front);
        assert forall|i: int| 0 <= i < decoded(items).len() implies items[i] == Some(
            #[trigger] decoded(items)[i],
        ) by {
            if i < decoded(front).len() {
                assert(front[i] == Some(decoded(front)[i]));
            }
        }
    }
}

/// What becomes of a creation from items that may have no value. Let `amounts` be the values
/// before the first amount without one, or all of them. A fault of these is the reason of the
/// refusal; without one, an item without a value is. From items that all have values, a job is
/// created as from the values.
pub proof fn law_items_decided(
    ledger: LedgerModel,
    client: Seq<char>,
    freelancer: Seq<char>,
    token: Seq<char>,
    amount_items: Seq<Option<i128>>,
    description_items: Seq<Option<Seq<u8>>>,
    amounts: Seq<i128>,
)
    requires
        amounts.len() <= amount_items.len(),
        forall|i: int| 0 <= i < amounts.len() ==> amount_items[i] == Some(#[trigger] amounts[i]),
        amounts.len() < amount_items.len() ==> amount_items[amounts.len() as int] is None,
    ensures
        ({
            let outcome = create_from_items(
                ledger,
                client,
                freelancer,
                token,
                amount_items,
                description_items,
            );
            let paired = amount_items.len() == description_items.len();
            let filled = paired && amount_items.len() > 0;
            let sound = filled && sound_up_to(amounts, amounts.len() as int);
            let whole = sound && amounts.len() == amount_items.len() && forall|i: int|
                0 <= i < description_items.len() ==> #[trigger] description_items[i] is Some;
            &&& (outcome matches Err(GigGuardError::MismatchedMilestones)) <==> !paired
            &&& (outcome matches Err(GigGuardError::NoMilestones)) <==> paired && !filled
            &&& (outcome matches Err(GigGuardError::NonPositiveAmount)) <==> paired && exists|
                i: int,
            |
                0 <= i < amounts.len() && #[trigger] sound_up_to(amounts, i) && amounts[i] <= 0
            &&& (outcome matches Err(GigGuardError::TotalOverflow)) <==> paired && exists|i: int|
                0 <= i < amounts.len() && #[trigger] sound_up_to(amounts, i) && amounts[i] > 0
                    && total(amounts.take(i)) + amounts[i] > i128::MAX
            &&& (outcome matches Err(GigGuardError::UndecodableMilestone)) <==> sound && !whole
            &&& (outcome matches Err(GigGuardError::JobCountOverflow)) <==> whole
                && ledger.job_count == Some(u64::MAX)
            &&& outcome is Ok <==> whole && ledger.job_count != Some(u64::MAX)
            &&& whole ==> outcome == create(
                ledger,
                client,
                freelancer,
                token,
                amounts,
                description_items.map_values(|text: Option<Seq<u8>>| text->0),
            )
        }),
{
    let texts = description_items.map_values(|text: Option<Seq<u8>>| text->0);
    law_decoded_up_to_the_first_without(amount_items);
    law_decoded_up_to_the_first_without(description_items);
    let read = decoded(amount_items);
    if read.len() < amounts.len() {
        assert(amount_items[read.len() as int] == Some(amounts[read.len() as int]));
    }
    if amounts.len() < read.len() {
        assert(amount_items[amounts.len() as int] == Some(read[amounts.len() as int]));
    }
    assert forall|i: int| 0 <= i < amounts.len() implies read[i] == #[trigger] amounts[i] by {
        assert(amount_items[i] == Some(read[i]));
    }
    assert(read =~= amounts);
    law_first_fault(amounts);
    let decoded_texts = decoded(description_items);
    if decoded_texts.len() == description_items.len() {
        assert forall|i: int| 0 <= i < description_items.len() implies #[trigger]
        description_items[i] is Some && texts[i] == decoded_texts[i] by {
            assert(description_items[i] == Some(decoded_texts[i]));
        }
        assert(decoded_texts =~= texts);
    } else {
        assert(description_items[decoded_texts.len() as int] is None);
    }
    law_creation_refused(ledger, client, freelancer, token, amounts, texts);
}

proof fn lemma_decoded_short<T>(items: Seq<Option<T>>, i: int)
    ensures
        decoded(items).len() <= items.len(),
        0 <= i < items.len() && items[i] is None ==> decoded(items).len() < items.len(),
    decreases items.len(),
{
    if items.len() > 0 {
        lemma_decoded_short(items.drop_last(), i);
    }
}

// ---------------------------------------------------------------------------------------------
// Entries that a call writes and reads
// ---------------------------------------------------------------------------------------------
/// The entries that an accepted call says it writes.
pub open spec fn writes(ledger: LedgerModel, call: Call) -> Seq<DataKey> {
    match step(ledger, call) {
        Ok((_, _, effects)) => effects.writes,
        Err(_) => seq![],
    }
}

/// Every entry that a call changes is among those that it says it writes, and the contract's
/// address never changes. A refused call writes nothing and changes nothing.
pub proof fn law_writes_cover_changes(ledger: LedgerModel, call: Call, job_id: u64)
    ensures
        ({
            let next = after(ledger, call);
            &&& next.address == ledger.address
            &&& next.fee_collector != ledger.fee_collector ==> writes(ledger, call).contains(
                DataKey::FeeCollector,
            )
            &&& next.job_count != ledger.job_count ==> writes(ledger, call).contains(
                DataKey::JobCount,
            )
            &&& find_job(next, job_id) != find_job(ledger, job_id) ==> writes(
                ledger,
                call,
            ).contains(DataKey::Job(job_id))
            &&& step(ledger, call) is Err ==> next == ledger && writes(ledger, call).len() == 0
        }),
{
    let keys = writes(ledger, call);
    if step(ledger, call) is Ok {
        match call {
            Call::Initialize { .. } => {
                assert(keys[0] == DataKey::FeeCollector && keys[1] == DataKey::JobCount);
            },
            Call::CreateJob { .. } => {
                assert(keys[0] == DataKey::Job(job_count(ledger)) && keys[1] == DataKey::JobCount);
            },
            Call::Submit { job_id: id, .. } => {
                assert(keys[0] == DataKey::Job(id));
            },
            Call::Approve { job_id: id, .. } => {
                assert(keys[0] == DataKey::Job(id));
            },
            Call::Claim { job_id: id, .. } => {
                assert(keys[0] == DataKey::Job(id));
            },
            Call::Dispute { job_id: id, .. } => {
                assert(keys[0] == DataKey::Job(id));
            },
        }
    }
}

/// The job that a call operates on, if it operates on one that is stored.
pub open spec fn job_read(call: Call) -> Option<u64> {
    match call {
        Call::Initialize { .. } => None,
        Call::CreateJob { .. } => None,
        Call::Submit { job_id, .. } => Some(job_id),
        Call::Approve { job_id, .. } => Some(job_id),
        Call::Claim { job_id, .. } => Some(job_id),
        Call::Dispute { job_id, .. } => Some(job_id),
    }
}

/// A call depends only on the address, the fee collector, the counter, and the one job that it
/// names: on storage that agrees on these, it is refused for the same reason, or accepted with
/// the same effects and the same new value of each entry that it writes.
pub proof fn law_reads_one_job(one: LedgerModel, two: LedgerModel, call: Call)
    requires
        one.address == two.address,
        one.fee_collector == two.fee_collector,
        one.job_count == two.job_count,
        job_read(call) matches Some(job_id) ==> find_job(one, job_id) == find_job(two, job_id),
    ensures
        match (step(one, call), step(two, call)) {
            (Ok((_, next_one, effects_one)), Ok((_, next_two, effects_two))) => {
                &&& effects_one == effects_two
                &&& next_one.fee_collector == next_two.fee_collector
                &&& next_one.job_count == next_two.job_count
                &&& forall|job_id: u64|
                    effects_one.writes.contains(DataKey::Job(job_id)) ==> #[trigger] find_job(
                        next_one,
                        job_id,
                    ) == find_job(next_two, job_id)
            },
            (Err(reason_one), Err(reason_two)) => reason_one == reason_two,
            _ => false,
        },
{
    match job_read(call) {
        Some(job_id) => {
            assert(one.jobs.contains_key(job_id) <==> two.jobs.contains_key(job_id));
            if one.jobs.contains_key(job_id) {
                assert(one.jobs[job_id] == two.jobs[job_id]);
            }
        },
        None => {},
    }
}

} // verus!
