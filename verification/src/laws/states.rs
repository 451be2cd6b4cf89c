//! What a block leaves in the storage, once its results have been committed to it
//! one after the other.

use crate::account::{AccountStatus, AccountView, StorageSlot};
use crate::laws::block::LazyAccess;
use crate::laws::workers::ExecutionStep;
use crate::lazy::LazyAccountView;
use crate::mv_memory::{Entry, LocationValue};
use crate::op_executor::{BlockEvent, ExecutorView, StageView};
use crate::primitives::{Address, SpecId, TxIdx};
use crate::result::{
    ExecutionError, ParallelExecutorResult, TxExecutionResult, TxResultView,
};
use crate::sequential::SequentialStageView;
use crate::transaction::TxEnv;
use vstd::prelude::*;

verus! {

/// What the storage holds of an account: its balance, its nonce, and the word
/// under one key.
pub struct Holding {
    pub balance: nat,
    pub nonce: nat,
    pub word: nat,
}

/// The word under a key after slots were written over it. Where a key occurs more
/// than once, the last slot stands.
pub open spec fn word_after(word: nat, slots: Seq<StorageSlot>, key: nat) -> nat
    decreases slots.len(),
{
    if slots.len() == 0 {
        word
    } else if slots.last().key@ == key {
        slots.last().present_value@
    } else {
        word_after(word, slots.drop_last(), key)
    }
}

/// Whether an account was created by the transaction.
pub open spec fn is_created(status: AccountStatus) -> bool {
    status.bits & 1 != 0
}

/// Whether an account was destroyed by the transaction.
pub open spec fn is_destroyed(status: AccountStatus) -> bool {
    status.bits & 2 != 0
}

/// Whether an account was touched, so that it is saved.
pub open spec fn is_touched(status: AccountStatus) -> bool {
    status.bits & 4 != 0
}

/// What the storage holds of an account after one transaction's change to it was
/// committed. A change that did not touch the account is not saved; an account
/// that was destroyed leaves nothing, and one that was created starts with an
/// empty storage.
pub open spec fn committed_account(
    before: Holding,
    change: Option<AccountView>,
    key: nat,
) -> Holding {
    match change {
        Some(account) => if !is_touched(account.status) {
            before
        } else if is_destroyed(account.status) {
            Holding { balance: 0, nonce: 0, word: 0 }
        } else {
            Holding {
                balance: account.info.balance,
                nonce: account.info.nonce,
                word: word_after(
                    if is_created(account.status) {
                        0
                    } else {
                        before.word
                    },
                    account.storage,
                    key,
                ),
            }
        },
        None => before,
    }
}

/// What a result changes of an account.
pub open spec fn change_at(
    results: Seq<TxResultView>,
    i: int,
    address: Address,
) -> Option<AccountView> {
    crate::laws::settlement::account_at(results[i].state, address)
}

/// What the storage holds of the account at an address after the first `n`
/// results were committed.
pub open spec fn committed(
    before: Holding,
    results: Seq<TxResultView>,
    address: Address,
    key: nat,
    n: nat,
) -> Holding
    decreases n,
{
    if n == 0 {
        before
    } else {
        committed_account(
            committed(before, results, address, key, (n - 1) as nat),
            change_at(results, n - 1, address),
            key,
        )
    }
}

/// Whether an entry tells what became of an account's balance and nonce.
pub open spec fn entry_tells(entry: Entry, before: Holding, after: Holding) -> bool {
    match entry {
        Entry::Data(_, LocationValue::Basic(info)) => {
            &&& after.balance == info.balance@
            &&& after.nonce == info.nonce
        },
        Entry::Data(_, LocationValue::LazyRecipient(amount)) => {
            &&& after.balance == crate::primitives::saturate(before.balance + amount@)
            &&& after.nonce == before.nonce
        },
        Entry::Data(_, LocationValue::LazySender(amount)) => {
            &&& after.balance == crate::primitives::monus(before.balance, amount@)
            &&& after.nonce == before.nonce + 1
        },
        _ => true,
    }
}

/// Whether a history tells what one transaction makes of an account's balance and
/// nonce: its entry does, and without an entry they stay.
pub open spec fn history_tells(
    history: Map<TxIdx, Entry>,
    tx_idx: TxIdx,
    before: Holding,
    after: Holding,
) -> bool {
    if history.contains_key(tx_idx) {
        entry_tells(history[tx_idx], before, after)
    } else {
        after.balance == before.balance && after.nonce == before.nonce
    }
}

/// Whether the storage, if it is asked, answers what it holds of an account.
pub open spec fn answers_truly(access: LazyAccess, before: Holding) -> bool {
    crate::mv_memory::begins_absolute(access.history->Some_0@) || match access.account {
        Ok(Some(info)) => before.balance == info.balance@ && before.nonce == info.nonce,
        Ok(None) => before.balance == 0 && before.nonce == 0,
        Err(_) => false,
    }
}

/// Whether an account can be settled over a worker's change to it: the change, if
/// there is one, is of an account that will be saved; and if the settled account is
/// left out, the change has it empty too.
pub open spec fn can_carry(
    change: Option<AccountView>,
    account: LazyAccountView,
    spec: SpecId,
) -> bool {
    change matches Some(known) ==> {
        &&& is_touched(known.status)
        &&& !is_destroyed(known.status)
        &&& crate::lazy::left_out(account, spec) ==> known.info.balance == 0 && known.info.nonce
            == 0
    }
}

/// Whether some lazily updated account was written to by a transaction at this
/// address.
pub open spec fn wrote(accesses: Seq<LazyAccess>, address: Address, tx_idx: TxIdx) -> bool {
    exists|k: int|
        {
            &&& 0 <= k < accesses.len()
            &&& (#[trigger] accesses[k]).address == address
            &&& accesses[k].history is Some
            &&& accesses[k].history->Some_0@.contains_key(tx_idx)
        }
}

/// Whether one transaction is recorded as a sequential execution does it: at a
/// lazily updated account the history tells what becomes of the balance and the
/// nonce, and the worker's change makes the same of the word under the key.
pub open spec fn recorded_truly(
    txs: Seq<TxEnv>,
    spec: SpecId,
    before: Holding,
    recorded: Seq<TxResultView>,
    expected: Seq<TxResultView>,
    access: LazyAccess,
    key: nat,
    i: int,
) -> bool {
    let history = access.history->Some_0@;
    let change = change_at(recorded, i, access.address);
    let held = committed(before, expected, access.address, key, i as nat);
    let left = committed(before, expected, access.address, key, (i + 1) as nat);
    &&& history_tells(history, i as usize, held, left)
    &&& history.contains_key(i as usize) ==> {
        &&& left.word == committed_account(held, change, key).word
        &&& can_carry(change, access.evaluation(txs).after((i + 1) as nat)->Ok_0, spec)
    }
}

/// Whether a lazily updated account is recorded as a sequential execution comes to
/// it, from what the storage holds of it before the block.
pub open spec fn account_recorded(
    txs: Seq<TxEnv>,
    spec: SpecId,
    before: Holding,
    recorded: Seq<TxResultView>,
    expected: Seq<TxResultView>,
    access: LazyAccess,
    key: nat,
) -> bool {
    &&& access.evaluation(txs).evaluable()
    &&& answers_truly(access, before)
    &&& forall|i: int|
        0 <= i < txs.len() ==> #[trigger] recorded_truly(
            txs,
            spec,
            before,
            recorded,
            expected,
            access,
            key,
            i,
        )
}

/// Whether a worker's result does to the account at an address what the sequential
/// execution does to it.
pub open spec fn changes_alike(
    before: Holding,
    recorded: Seq<TxResultView>,
    expected: Seq<TxResultView>,
    address: Address,
    key: nat,
    i: int,
) -> bool {
    let held = committed(before, expected, address, key, i as nat);
    committed_account(held, change_at(recorded, i, address), key) == committed_account(
        held,
        change_at(expected, i, address),
        key,
    )
}

/// Whether the workers recorded a block as a sequential execution comes to it, at
/// one address and one key: each lazily updated account there is recorded truly,
/// and where no such account was written to the worker's result itself does what
/// the sequential execution does.
pub open spec fn block_recorded(
    txs: Seq<TxEnv>,
    spec: SpecId,
    before: Holding,
    recorded: Seq<TxResultView>,
    expected: Seq<TxResultView>,
    accesses: Seq<LazyAccess>,
    address: Address,
    key: nat,
) -> bool {
    &&& forall|k: int|
        0 <= k < accesses.len() && (#[trigger] accesses[k]).address == address
            && accesses[k].history is Some ==> account_recorded(
            txs,
            spec,
            before,
            recorded,
            expected,
            accesses[k],
            key,
        )
    &&& forall|i: int|
        0 <= i < txs.len() && !wrote(accesses, address, i as usize) ==> #[trigger] changes_alike(
            before,
            recorded,
            expected,
            address,
            key,
            i,
        )
}

/// Accounts that were settled without an error each came to none.
proof fn lemma_accesses_succeed(
    txs: Seq<TxEnv>,
    spec: SpecId,
    results: Seq<TxResultView>,
    accesses: Seq<LazyAccess>,
)
    requires
        crate::laws::block::settle_accesses(txs, spec, results, accesses) is Ok,
    ensures
        forall|k: int|
            0 <= k < accesses.len() ==> crate::laws::block::access_succeeds(
                txs,
                #[trigger] accesses[k],
            ),
    decreases accesses.len(),
{
    if accesses.len() > 0 {
        let rest = accesses.drop_last();
        lemma_accesses_succeed(txs, spec, results, rest);
        assert forall|k: int| 0 <= k < accesses.len() implies crate::laws::block::access_succeeds(
            txs,
            #[trigger] accesses[k],
        ) by {
            if k < rest.len() {
                assert(rest[k] == accesses[k]);
            }
        }
    }
}

/// Whether the balance and the nonce that an evaluation has come to are known: from
/// the start, or once an absolute value was written.
spec fn is_known(history: Map<TxIdx, Entry>, n: nat) -> bool {
    crate::mv_memory::begins_absolute(history) ==> exists|j: TxIdx|
        j < n && #[trigger] history.contains_key(j)
}

/// The evaluation of an account that is recorded truly comes to the balance and
/// the nonce that the sequential execution leaves.
proof fn lemma_evaluation_tells(
    txs: Seq<TxEnv>,
    spec: SpecId,
    before: Holding,
    recorded: Seq<TxResultView>,
    expected: Seq<TxResultView>,
    access: LazyAccess,
    key: nat,
    n: nat,
)
    requires
        access.history is Some,
        account_recorded(txs, spec, before, recorded, expected, access, key),
        access.evaluation(txs).after(n) is Ok,
        is_known(access.history->Some_0@, n),
        n <= txs.len() <= usize::MAX,
    ensures
        ({
            let account = access.evaluation(txs).after(n)->Ok_0;
            let held = committed(before, expected, access.address, key, n);
            account.balance == held.balance && account.nonce == held.nonce
        }),
    decreases n,
{
    let history = access.history->Some_0@;
    let eval = access.evaluation(txs);
    if n > 0 {
        let i = n - 1;
        assert(recorded_truly(txs, spec, before, recorded, expected, access, key, i));
        if history.contains_key(i as usize) {
            assert(eval.reaches(i as usize));
            assert(eval.evaluable_at(i as usize));
            if !is_known(history, i as nat) {
                let first = choose|first: TxIdx|
                    {
                        &&& #[trigger] history.contains_key(first)
                        &&& forall|j: TxIdx| #[trigger] history.contains_key(j) ==> first <= j
                        &&& history[first] matches Entry::Data(_, LocationValue::Basic(_))
                    };
                assert(first == i as usize);
            }
        } else if crate::mv_memory::begins_absolute(history) {
            let j = choose|j: TxIdx| j < n && #[trigger] history.contains_key(j);
            assert(j < i);
        }
        if is_known(history, i as nat) {
            lemma_evaluation_tells(
                txs,
                spec,
                before,
                recorded,
                expected,
                access,
                key,
                i as nat,
            );
        }
    }
}

/// An account that is settled for a transaction is committed as the sequential
/// execution leaves it.
proof fn lemma_settled_alike(
    txs: Seq<TxEnv>,
    spec: SpecId,
    before: Holding,
    recorded: Seq<TxResultView>,
    expected: Seq<TxResultView>,
    access: LazyAccess,
    key: nat,
    i: int,
)
    requires
        access.history is Some,
        access.history->Some_0@.contains_key(i as usize),
        account_recorded(txs, spec, before, recorded, expected, access, key),
        access.evaluation(txs).after((i + 1) as nat) is Ok,
        0 <= i < txs.len() <= usize::MAX,
    ensures
        committed_account(
            committed(before, expected, access.address, key, i as nat),
            crate::laws::settlement::settled_account(
                change_at(recorded, i, access.address),
                access.evaluation(txs).after((i + 1) as nat)->Ok_0,
                access.code->Ok_0@,
                spec,
            ),
            key,
        ) == committed(before, expected, access.address, key, (i + 1) as nat),
{
    let eval = access.evaluation(txs);
    assert(recorded_truly(txs, spec, before, recorded, expected, access, key, i));
    assert(eval.reaches(i as usize));
    assert(eval.evaluable_at(i as usize));
    lemma_evaluation_tells(
        txs,
        spec,
        before,
        recorded,
        expected,
        access,
        key,
        (i + 1) as nat,
    );
    assert(4u8 & 1 == 0) by (bit_vector);
    assert(4u8 & 2 == 0) by (bit_vector);
    assert(4u8 & 4 != 0) by (bit_vector);
}

/// Committing a block's settled results leaves what committing the results of the
/// sequential execution leaves.
proof fn lemma_committed_alike(
    txs: Seq<TxEnv>,
    spec: SpecId,
    before: Holding,
    recorded: Seq<TxResultView>,
    expected: Seq<TxResultView>,
    accesses: Seq<LazyAccess>,
    address: Address,
    key: nat,
    n: nat,
)
    requires
        recorded.len() == txs.len(),
        n <= txs.len() <= usize::MAX,
        forall|j: int, k: int|
            0 <= j < k < accesses.len() ==> (#[trigger] accesses[j]).address != (
            #[trigger] accesses[k]).address,
        crate::laws::block::settle_accesses(txs, spec, recorded, accesses) is Ok,
        block_recorded(txs, spec, before, recorded, expected, accesses, address, key),
    ensures
        committed(
            before,
            crate::laws::block::settle_accesses(txs, spec, recorded, accesses)->Ok_0,
            address,
            key,
            n,
        ) == committed(before, expected, address, key, n),
    decreases n,
{
    if n > 0 {
        let i = n - 1;
        lemma_committed_alike(
            txs,
            spec,
            before,
            recorded,
            expected,
            accesses,
            address,
            key,
            i as nat,
        );
        lemma_settled_change(txs, spec, recorded, accesses, address, i);
        if wrote(accesses, address, i as usize) {
            let k = choose|k: int|
                {
                    &&& 0 <= k < accesses.len()
                    &&& (#[trigger] accesses[k]).address == address
                    &&& accesses[k].history is Some
                    &&& accesses[k].history->Some_0@.contains_key(i as usize)
                };
            lemma_settled_alike(txs, spec, before, recorded, expected, accesses[k], key, i);
        } else {
            assert(changes_alike(before, recorded, expected, address, key, i));
        }
    }
}

/// What settling all accounts makes of a result at one address.
proof fn lemma_settled_change(
    txs: Seq<TxEnv>,
    spec: SpecId,
    recorded: Seq<TxResultView>,
    accesses: Seq<LazyAccess>,
    address: Address,
    i: int,
)
    requires
        recorded.len() == txs.len(),
        0 <= i < txs.len(),
        forall|j: int, k: int|
            0 <= j < k < accesses.len() ==> (#[trigger] accesses[j]).address != (
            #[trigger] accesses[k]).address,
        crate::laws::block::settle_accesses(txs, spec, recorded, accesses) is Ok,
    ensures
        ({
            let settled = crate::laws::block::settle_accesses(
                txs,
                spec,
                recorded,
                accesses,
            )->Ok_0;
            &&& !wrote(accesses, address, i as usize) ==> change_at(settled, i, address)
                == change_at(recorded, i, address)
            &&& forall|k: int|
                0 <= k < accesses.len() && (#[trigger] accesses[k]).address == address
                    && accesses[k].history is Some && accesses[k].history->Some_0@.contains_key(
                    i as usize,
                ) ==> {
                    &&& accesses[k].evaluation(txs).after((i + 1) as nat) is Ok
                    &&& change_at(settled, i, address)
                        == crate::laws::settlement::settled_account(
                        change_at(recorded, i, address),
                        accesses[k].evaluation(txs).after((i + 1) as nat)->Ok_0,
                        accesses[k].code->Ok_0@,
                        spec,
                    )
                }
        }),
{
    let read = |access: LazyAccess| crate::laws::block::access_read(access);
    let reads = accesses.map_values(read);
    let settled = crate::laws::block::settle_accesses(txs, spec, recorded, accesses)->Ok_0;
    lemma_accesses_succeed(txs, spec, recorded, accesses);
    crate::laws::block::lemma_accesses_as_reads(txs, spec, recorded, accesses);
    assert forall|k: int| 0 <= k < reads.len() implies (#[trigger] reads[k]).evaluation(txs).after(
        txs.len(),
    ) is Ok by {
        assert(crate::laws::block::access_succeeds(txs, accesses[k]));
        if accesses[k].history is None {
            crate::laws::block::lemma_no_history(reads[k].evaluation(txs), txs.len());
        }
    }
    assert forall|j: int, k: int| 0 <= j < k < reads.len() implies (#[trigger] reads[j]).address
        != (#[trigger] reads[k]).address by {
        assert(accesses[j].address != accesses[k].address);
    }
    crate::laws::settlement::law_settle_all(txs, spec, recorded, reads);
    assert forall|k: int|
        0 <= k < accesses.len() && (#[trigger] accesses[k]).address == address implies change_at(
        settled,
        i,
        address,
    ) == (if reads[k].history.contains_key(i as usize) {
        crate::laws::settlement::settled_account(
            change_at(recorded, i, address),
            reads[k].evaluation(txs).after((i + 1) as nat)->Ok_0,
            reads[k].code,
            spec,
        )
    } else {
        change_at(recorded, i, address)
    }) by {
        assert(reads[k].address == address);
        assert(crate::laws::settlement::account_at(settled[i].state, reads[k].address)
            == change_at(settled, i, address));
    }
    assert forall|k: int|
        0 <= k < accesses.len() && accesses[k].history is Some implies (
    #[trigger] accesses[k]).evaluation(txs).after((i + 1) as nat) is Ok by {
        assert(crate::laws::block::access_succeeds(txs, accesses[k]));
        crate::laws::settlement::lemma_after_prefix(
            accesses[k].evaluation(txs),
            (i + 1) as nat,
            txs.len(),
        );
    }
    if !wrote(accesses, address, i as usize) {
        if crate::laws::settlement::names(reads, address) {
            let k = choose|k: int| 0 <= k < reads.len() && (#[trigger] reads[k]).address == address;
            assert(accesses[k].address == address);
            assert(!reads[k].history.contains_key(i as usize));
        } else {
            assert(crate::laws::settlement::account_at(settled[i].state, address)
                == crate::laws::settlement::account_at(recorded[i].state, address));
        }
    }
}

/// The slots of an executor whose workers have brought in a block's executions.
pub open spec fn worked_slots(
    executor: ExecutorView,
    txs: Seq<TxEnv>,
    steps: Seq<ExecutionStep>,
) -> Seq<Option<TxExecutionResult>> {
    crate::laws::workers::after_executions(
        ExecutorView {
            slots: crate::op_executor::grown_slots(executor.slots, txs.len()),
            ..executor
        },
        steps,
    ).slots
}

/// What the workers recorded of a block, its gas counted up.
pub open spec fn recorded_results(
    executor: ExecutorView,
    txs: Seq<TxEnv>,
    steps: Seq<ExecutionStep>,
) -> Seq<TxResultView> {
    crate::gas::with_cumulative_gas(
        crate::op_executor::slot_results(worked_slots(executor, txs, steps), txs.len()),
    )
}

/// What a sequential execution makes of a block, its gas counted up.
pub open spec fn expected_results(
    outcomes: Seq<Result<TxExecutionResult, ExecutionError>>,
    n: nat,
) -> Seq<TxResultView> {
    crate::gas::with_cumulative_gas(crate::laws::receipts::raw_results(outcomes, n))
}

/// Whether two results leave an account with the same balance, nonce and storage,
/// or neither of them has it.
pub open spec fn same_account(left: Option<AccountView>, right: Option<AccountView>) -> bool {
    match (left, right) {
        (Some(one), Some(other)) => {
            &&& one.info.balance == other.info.balance
            &&& one.info.nonce == other.info.nonce
            &&& one.storage == other.storage
        },
        (None, None) => true,
        _ => false,
    }
}

/// Whether an account that was settled over a worker's change to it has the
/// balance and the nonce that were evaluated, and the storage of the change.
pub open spec fn is_evaluated(
    change: Option<AccountView>,
    account: LazyAccountView,
    settled: Option<AccountView>,
) -> bool {
    &&& settled matches Some(known)
    &&& known.info.balance == account.balance
    &&& known.info.nonce == account.nonce
    &&& known.storage == (match change {
        Some(before) => before.storage,
        None => Seq::empty(),
    })
}

/// A transaction's result has at an address the balance, the nonce and the storage
/// that the sequential execution's result has there. This is so if the worker's
/// result had them already, wherever no lazily updated account is settled; and if
/// the evaluation comes to that balance and that nonce, wherever one is.
pub proof fn law_parallel_results_match_sequential(
    executor: ExecutorView,
    txs: Seq<TxEnv>,
    spec: SpecId,
    concurrency_level: usize,
    steps: Seq<ExecutionStep>,
    outcomes: Seq<Result<TxExecutionResult, ExecutionError>>,
    accesses: Seq<LazyAccess>,
    i: int,
    address: Address,
)
    requires
        executor.abort_reason is None,
        forall|j: int|
            0 <= j < steps.len() ==> !crate::laws::workers::is_abort(#[trigger] steps[j]),
        outcomes.len() == txs.len(),
        crate::laws::receipts::types_known(txs, txs.len()),
        crate::laws::receipts::all_executed(outcomes, txs.len()),
        forall|j: int, k: int|
            0 <= j < k < accesses.len() ==> (#[trigger] accesses[j]).address != (
            #[trigger] accesses[k]).address,
        crate::laws::block::settle_accesses(
            txs,
            spec,
            recorded_results(executor, txs, steps),
            accesses,
        ) is Ok,
        0 <= i < txs.len(),
        ({
            let change = change_at(recorded_results(executor, txs, steps), i, address);
            let wanted = change_at(expected_results(outcomes, txs.len()), i, address);
            &&& !wrote(accesses, address, i as usize) ==> same_account(change, wanted)
            &&& forall|k: int|
                0 <= k < accesses.len() && (#[trigger] accesses[k]).address == address
                    && accesses[k].history is Some && accesses[k].history->Some_0@.contains_key(
                    i as usize,
                ) ==> {
                    let account = accesses[k].evaluation(txs).after((i + 1) as nat)->Ok_0;
                    if crate::lazy::left_out(account, spec) {
                        same_account(change, wanted)
                    } else {
                        is_evaluated(change, account, wanted)
                    }
                }
        }),
    ensures
        ({
            let (after, stage) = crate::laws::block::workers_run(
                executor,
                txs,
                spec,
                concurrency_level,
                steps,
            );
            &&& crate::laws::block::settlement_run(
                after,
                txs,
                spec,
                stage,
                accesses,
            ) matches StageView::Done(Ok(results))
            &&& crate::laws::receipts::sequential_run(
                txs,
                outcomes,
                txs.len(),
            ) matches SequentialStageView::Done(Ok(expected))
            &&& results.len() == expected.len() == txs.len()
            &&& same_account(change_at(results, i, address), change_at(expected, i, address))
        }),
{
    let recorded = recorded_results(executor, txs, steps);
    crate::laws::block::law_parallel_block(
        executor,
        txs,
        spec,
        concurrency_level,
        steps,
        accesses,
    );
    crate::laws::receipts::law_sequential_results(txs, outcomes);
    crate::laws::block::law_settlement_keeps_receipts(txs, spec, recorded, accesses, i);
    lemma_settled_change(txs, spec, recorded, accesses, address, i);
}

/// A block that is executed in parallel, by however many workers and in whatever
/// order, comes to what its sequential execution comes to: as many results, with
/// the same receipts; and after any number of them has been committed, the storage
/// holds the same balance, nonce and words at every address. This is so of every
/// block that ends without an error and whose workers recorded it truly, which is
/// for the virtual machine and the memory to see to.
pub proof fn law_parallel_block_matches_sequential(
    executor: ExecutorView,
    txs: Seq<TxEnv>,
    spec: SpecId,
    concurrency_level: usize,
    steps: Seq<ExecutionStep>,
    outcomes: Seq<Result<TxExecutionResult, ExecutionError>>,
    accesses: Seq<LazyAccess>,
    before: Holding,
    address: Address,
    key: nat,
    n: nat,
)
    requires
        executor.abort_reason is None,
        0 < txs.len() <= usize::MAX,
        n <= txs.len(),
        forall|j: int|
            0 <= j < steps.len() ==> !crate::laws::workers::is_abort(#[trigger] steps[j]),
        outcomes.len() == txs.len(),
        crate::laws::receipts::types_known(txs, txs.len()),
        crate::laws::receipts::all_executed(outcomes, txs.len()),
        forall|j: int|
            0 <= j < txs.len() ==> (#[trigger] worked_slots(
                executor,
                txs,
                steps,
            )[j])->Some_0.receipt == (#[trigger] outcomes[j])->Ok_0.receipt,
        forall|j: int, k: int|
            0 <= j < k < accesses.len() ==> (#[trigger] accesses[j]).address != (
            #[trigger] accesses[k]).address,
        crate::laws::block::settle_accesses(
            txs,
            spec,
            recorded_results(executor, txs, steps),
            accesses,
        ) is Ok,
        block_recorded(
            txs,
            spec,
            before,
            recorded_results(executor, txs, steps),
            expected_results(outcomes, txs.len()),
            accesses,
            address,
            key,
        ),
    ensures
        ({
            let (after, stage) = crate::laws::block::workers_run(
                executor,
                txs,
                spec,
                concurrency_level,
                steps,
            );
            &&& crate::laws::block::settlement_run(
                after,
                txs,
                spec,
                stage,
                accesses,
            ) matches StageView::Done(Ok(results))
            &&& crate::laws::receipts::sequential_run(
                txs,
                outcomes,
                txs.len(),
            ) matches SequentialStageView::Done(Ok(expected))
            &&& results.len() == expected.len() == txs.len()
            &&& forall|i: int|
                0 <= i < txs.len() ==> (#[trigger] results[i]).receipt == (
                #[trigger] expected[i]).receipt
            &&& committed(before, results, address, key, n) == committed(
                before,
                expected,
                address,
                key,
                n,
            )
        }),
{
    let raw = crate::op_executor::slot_results(worked_slots(executor, txs, steps), txs.len());
    let recorded = recorded_results(executor, txs, steps);
    let wanted = crate::laws::receipts::raw_results(outcomes, txs.len());
    let expected = expected_results(outcomes, txs.len());
    let results = crate::laws::block::settle_accesses(txs, spec, recorded, accesses)->Ok_0;
    crate::laws::block::law_parallel_block(
        executor,
        txs,
        spec,
        concurrency_level,
        steps,
        accesses,
    );
    crate::laws::receipts::law_sequential_results(txs, outcomes);
    assert forall|j: int| 0 <= j < raw.len() implies (#[trigger] raw[j]).receipt == (
    #[trigger] wanted[j]).receipt by {
        assert(worked_slots(executor, txs, steps)[j]->Some_0.receipt
            == outcomes[j]->Ok_0.receipt);
    }
    crate::laws::block::law_settlement_keeps_receipts(txs, spec, recorded, accesses, 0);
    assert forall|i: int| 0 <= i < txs.len() implies (#[trigger] results[i]).receipt == (
    #[trigger] expected[i]).receipt by {
        crate::laws::receipts::law_gas_depends_on_receipts(raw, wanted, i);
        crate::laws::block::law_settlement_keeps_receipts(txs, spec, recorded, accesses, i);
    }
    lemma_committed_alike(
        txs,
        spec,
        before,
        recorded,
        expected,
        accesses,
        address,
        key,
        n,
    );
}

/// Where no execution is the first to abort, none aborts.
proof fn lemma_no_first_abort(steps: Seq<ExecutionStep>)
    requires
        crate::laws::workers::first_abort(steps) is None,
    ensures
        forall|j: int|
            0 <= j < steps.len() ==> !crate::laws::workers::is_abort(#[trigger] steps[j]),
    decreases steps.len(),
{
    if steps.len() > 0 {
        let rest = steps.drop_last();
        lemma_no_first_abort(rest);
        assert forall|j: int| 0 <= j < steps.len() implies !crate::laws::workers::is_abort(
            #[trigger] steps[j],
        ) by {
            if j < rest.len() {
                assert(rest[j] == steps[j]);
            }
        }
    }
}

/// Every block that ends without an error comes to what its sequential execution
/// comes to: as many results, with the same receipts; and after any number of them
/// has been committed, the storage holds the same balance, nonce and words at every
/// address. An empty block and one that falls back to sequential execution do so
/// whatever the workers recorded; any other, if they recorded it truly.
pub proof fn law_block_matches_sequential(
    executor: ExecutorView,
    txs: Seq<TxEnv>,
    spec: SpecId,
    concurrency_level: usize,
    steps: Seq<ExecutionStep>,
    outcomes: Seq<Result<TxExecutionResult, ExecutionError>>,
    sequential: ParallelExecutorResult,
    accesses: Seq<LazyAccess>,
    before: Holding,
    address: Address,
    key: nat,
    n: nat,
)
    requires
        executor.abort_reason is None,
        n <= txs.len() <= usize::MAX,
        outcomes.len() == txs.len(),
        crate::laws::receipts::sequential_run(txs, outcomes, txs.len())
            == SequentialStageView::Done(crate::result::outcome_view(sequential)),
        crate::laws::block::block_run(
            executor,
            txs,
            spec,
            concurrency_level,
            steps,
            accesses,
            sequential,
        ) matches StageView::Done(Ok(_)),
        txs.len() > 0 && crate::laws::workers::first_abort(steps) is None ==> {
            &&& crate::laws::receipts::succeeds(txs, outcomes)
            &&& forall|j: int|
                0 <= j < txs.len() ==> (#[trigger] worked_slots(
                    executor,
                    txs,
                    steps,
                )[j])->Some_0.receipt == (#[trigger] outcomes[j])->Ok_0.receipt
            &&& forall|j: int, k: int|
                0 <= j < k < accesses.len() ==> (#[trigger] accesses[j]).address != (
                #[trigger] accesses[k]).address
            &&& block_recorded(
                txs,
                spec,
                before,
                recorded_results(executor, txs, steps),
                expected_results(outcomes, txs.len()),
                accesses,
                address,
                key,
            )
        },
    ensures
        ({
            let results = crate::laws::block::block_run(
                executor,
                txs,
                spec,
                concurrency_level,
                steps,
                accesses,
                sequential,
            )->Done_0->Ok_0;
            &&& crate::result::outcome_view(sequential) matches Ok(expected)
            &&& results.len() == expected.len() == txs.len()
            &&& forall|i: int|
                0 <= i < txs.len() ==> (#[trigger] results[i]).receipt == (
                #[trigger] expected[i]).receipt
            &&& committed(before, results, address, key, n) == committed(
                before,
                expected,
                address,
                key,
                n,
            )
        }),
{
    let began = crate::op_executor::executor_next(
        executor,
        txs,
        StageView::Start,
        BlockEvent::Begin { concurrency_level },
    );
    let (after, stage) = crate::laws::block::workers_run(
        executor,
        txs,
        spec,
        concurrency_level,
        steps,
    );
    crate::laws::workers::law_abort_reason_is_the_first(began, steps);
    if stage is Done {
        crate::laws::block::lemma_done_is_settled(after, txs, spec, stage, accesses);
    }
    if txs.len() == 0 {
        crate::laws::receipts::law_sequential_results(txs, outcomes);
    } else if crate::laws::workers::first_abort(steps) is None {
        lemma_no_first_abort(steps);
        crate::laws::receipts::law_sequential_success(txs, outcomes);
        crate::laws::block::law_parallel_block(
            executor,
            txs,
            spec,
            concurrency_level,
            steps,
            accesses,
        );
        law_parallel_block_matches_sequential(
            executor,
            txs,
            spec,
            concurrency_level,
            steps,
            outcomes,
            accesses,
            before,
            address,
            key,
            n,
        );
    } else {
        crate::laws::receipts::law_sequential_success(txs, outcomes);
        crate::laws::receipts::law_sequential_results(txs, outcomes);
    }
}

} // verus!
