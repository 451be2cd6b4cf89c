//! What the stages of a block and of its sequential execution hold, and what follows
//! each of them.

use crate::account::{AccountInfo, Bytecode};
use crate::laws::block::LazyAccess;
use crate::laws::workers::ExecutionStep;
use crate::lazy::{Evaluation, LazyAccountView};
use crate::mv_memory::{Entry, LocationValue, WriteHistory};
use crate::op_executor::{BlockEvent, ExecutorView, StageView};
use crate::primitives::{Address, SpecId, TxIdx};
use crate::result::{
    AbortReason, ErrorView, ExecutionError, ParallelExecutorResult, TxExecutionResult,
    TxResultView,
};
use crate::sequential::{SequentialEvent, SequentialStageView};
use crate::transaction::{TxEnv, TxType};
use vstd::prelude::*;

verus! {

/// The results of a block are those of its transactions but for the gas in their
/// receipts: kind, success, logs and state stay as the transaction's own execution
/// left them. The gas is that of the transaction on top of the count before it, or
/// the largest count where that is beyond it.
pub proof fn law_only_gas_is_counted_up(results: Seq<TxResultView>, i: int)
    requires
        0 <= i < results.len(),
    ensures
        ({
            let counted = crate::gas::with_cumulative_gas(results);
            let before: int = if i == 0 {
                0
            } else {
                counted[i - 1].receipt.cumulative_gas_used as int
            };
            let sum = before + results[i].receipt.cumulative_gas_used;
            &&& counted.len() == results.len()
            &&& counted[i].receipt.tx_type == results[i].receipt.tx_type
            &&& counted[i].receipt.success == results[i].receipt.success
            &&& counted[i].receipt.logs == results[i].receipt.logs
            &&& counted[i].state == results[i].state
            &&& sum <= u64::MAX ==> counted[i].receipt.cumulative_gas_used == sum
            &&& sum > u64::MAX ==> counted[i].receipt.cumulative_gas_used == u64::MAX
        }),
{
}

/// Once the workers of a block that was not aborted have stopped, there is a result
/// for each transaction, in order. It has the kind, the success, the logs and the
/// state of the result in the transaction's slot; only its gas is counted up.
pub proof fn law_joined_results(
    executor: ExecutorView,
    txs: Seq<TxEnv>,
    spec: SpecId,
    block_size: usize,
    workers: usize,
    i: int,
)
    requires
        executor.abort_reason is None,
        crate::op_executor::slots_filled(executor.slots, txs.len()),
        0 <= i < txs.len(),
    ensures
        ({
            let own = executor.slots[i]->Some_0;
            &&& crate::op_executor::stage_next(
                executor,
                txs,
                spec,
                StageView::Working { block_size, workers },
                BlockEvent::WorkersJoined,
            ) matches StageView::Settling { results }
            &&& results.len() == txs.len()
            &&& results[i].receipt.tx_type == own.receipt.tx_type
            &&& results[i].receipt.success == own.receipt.success
            &&& results[i].receipt.logs == own.receipt.logs
            &&& results[i].state == crate::account::state_view(own.state)
            &&& i == 0 ==> results[i].receipt.cumulative_gas_used
                == own.receipt.cumulative_gas_used
            &&& i > 0 && results[i - 1].receipt.cumulative_gas_used
                + own.receipt.cumulative_gas_used <= u64::MAX
                ==> results[i].receipt.cumulative_gas_used == results[i
                - 1].receipt.cumulative_gas_used + own.receipt.cumulative_gas_used
            &&& i > 0 && results[i - 1].receipt.cumulative_gas_used
                + own.receipt.cumulative_gas_used > u64::MAX
                ==> results[i].receipt.cumulative_gas_used == u64::MAX
        }),
{
    law_only_gas_is_counted_up(crate::op_executor::slot_results(executor.slots, txs.len()), i);
}

/// A block that ends with results, and does not fall back to sequential execution,
/// has for each transaction the receipt of its last execution: of the same kind, with
/// the same success and the same logs. No settlement changes that, and the gas counts
/// up from receipt to receipt.
pub proof fn law_block_keeps_receipts(
    executor: ExecutorView,
    txs: Seq<TxEnv>,
    spec: SpecId,
    concurrency_level: usize,
    steps: Seq<ExecutionStep>,
    accesses: Seq<LazyAccess>,
    sequential: ParallelExecutorResult,
    i: int,
)
    requires
        executor.abort_reason is None,
        crate::laws::workers::first_abort(steps) is None,
        forall|j: int|
            0 <= j < steps.len() ==> (#[trigger] steps[j]).tx_version.tx_idx < txs.len(),
        crate::laws::workers::last_result(steps, i) is Some,
        0 <= i < txs.len(),
        crate::laws::block::block_run(
            executor,
            txs,
            spec,
            concurrency_level,
            steps,
            accesses,
            sequential,
        ) matches StageView::Done(Ok(_)),
    ensures
        ({
            let results = crate::laws::block::block_run(
                executor,
                txs,
                spec,
                concurrency_level,
                steps,
                accesses,
                sequential,
            )->Done_0->Ok_0;
            let own = crate::laws::workers::last_result(steps, i)->Some_0;
            let before: int = if i == 0 {
                0
            } else {
                results[i - 1].receipt.cumulative_gas_used as int
            };
            let sum = before + own.receipt.cumulative_gas_used;
            &&& results.len() == txs.len()
            &&& results[i].receipt.tx_type == own.receipt.tx_type
            &&& results[i].receipt.success == own.receipt.success
            &&& results[i].receipt.logs == own.receipt.logs
            &&& sum <= u64::MAX ==> results[i].receipt.cumulative_gas_used == sum
            &&& sum > u64::MAX ==> results[i].receipt.cumulative_gas_used == u64::MAX
        }),
{
    let began = crate::op_executor::executor_next(
        executor,
        txs,
        StageView::Start,
        BlockEvent::Begin { concurrency_level },
    );
    let worked = crate::laws::workers::after_executions(began, steps);
    let raw = crate::op_executor::slot_results(worked.slots, txs.len());
    let counted = crate::gas::with_cumulative_gas(raw);
    let (after, stage) = crate::laws::block::workers_run(
        executor,
        txs,
        spec,
        concurrency_level,
        steps,
    );
    crate::laws::workers::law_abort_reason_is_the_first(began, steps);
    crate::laws::block::law_every_transaction_has_a_slot(executor, txs, concurrency_level, 0);
    crate::laws::workers::law_slot_holds_last_result(began, steps, i);
    crate::laws::block::law_settlement_run(after, txs, spec, counted, accesses);
    crate::laws::block::law_settlement_keeps_receipts(txs, spec, counted, accesses, i);
    if i > 0 {
        crate::laws::block::law_settlement_keeps_receipts(txs, spec, counted, accesses, i - 1);
    }
    law_only_gas_is_counted_up(raw, i);
}

/// A sequential execution that ends with results has for each transaction, in order,
/// the kind, the success, the logs and the state of the transaction's own execution;
/// only the gas is counted up.
pub proof fn law_sequential_keeps_receipts(
    txs: Seq<TxEnv>,
    outcomes: Seq<Result<TxExecutionResult, ExecutionError>>,
    i: int,
)
    requires
        crate::laws::receipts::succeeds(txs, outcomes),
        0 <= i < txs.len(),
    ensures
        ({
            let results = crate::laws::receipts::sequential_run(
                txs,
                outcomes,
                txs.len(),
            )->Done_0->Ok_0;
            let own = outcomes[i]->Ok_0;
            let before: int = if i == 0 {
                0
            } else {
                results[i - 1].receipt.cumulative_gas_used as int
            };
            let sum = before + own.receipt.cumulative_gas_used;
            &&& outcomes[i] is Ok
            &&& results.len() == txs.len()
            &&& results[i].receipt.tx_type == own.receipt.tx_type
            &&& results[i].receipt.success == own.receipt.success
            &&& results[i].receipt.logs == own.receipt.logs
            &&& results[i].state == crate::account::state_view(own.state)
            &&& sum <= u64::MAX ==> results[i].receipt.cumulative_gas_used == sum
            &&& sum > u64::MAX ==> results[i].receipt.cumulative_gas_used == u64::MAX
        }),
{
    crate::laws::receipts::law_sequential_success(txs, outcomes);
    crate::laws::receipts::law_sequential_results(txs, outcomes);
    law_only_gas_is_counted_up(
        crate::laws::receipts::raw_results(outcomes, txs.len()),
        i,
    );
}

/// The type bytes from 0 to 4 stand for the five kinds, and no other byte stands for
/// one.
pub proof fn law_type_bytes(byte: u8)
    ensures
        crate::transaction::tx_type_of(byte) is Some <==> byte <= 4,
        byte == 0 <==> crate::transaction::tx_type_of(byte) == Some(TxType::Legacy),
        byte == 1 <==> crate::transaction::tx_type_of(byte) == Some(TxType::Eip2930),
        byte == 2 <==> crate::transaction::tx_type_of(byte) == Some(TxType::Eip1559),
        byte == 3 <==> crate::transaction::tx_type_of(byte) == Some(TxType::Eip4844),
        byte == 4 <==> crate::transaction::tx_type_of(byte) == Some(TxType::Eip7702),
{
}

/// A sequential execution waits to begin, then for what executing a transaction comes
/// to, and then for its changes to be committed; once it is done it waits for nothing.
pub proof fn law_sequential_waits(stage: SequentialStageView, event: SequentialEvent)
    ensures
        crate::sequential::sequential_event_fits(stage, event) <==> {
            ||| stage is Start && event is Begin
            ||| stage is Transacting && event is Transacted
            ||| stage is Committing && event is Committed
        },
{
}

/// A sequential execution begins with the first transaction, and without results. It
/// is done at once if there is no transaction, or if the first one's type byte stands
/// for nothing.
pub proof fn law_sequential_begins(txs: Seq<TxEnv>)
    ensures
        ({
            let next = crate::sequential::sequential_next(
                txs,
                SequentialStageView::Start,
                SequentialEvent::Begin,
            );
            &&& txs.len() == 0 ==> next == SequentialStageView::Done(
                Ok(Seq::<TxResultView>::empty()),
            )
            &&& txs.len() > 0 && txs[0].tx_type > 4 ==> next == SequentialStageView::Done(
                Err(ErrorView::Unreachable),
            )
            &&& txs.len() > 0 && txs[0].tx_type <= 4 ==> {
                &&& next matches SequentialStageView::Transacting {
                    results,
                    tx_idx,
                    tx_type,
                    cumulative_gas_used,
                }
                &&& results.len() == 0
                &&& tx_idx == 0
                &&& crate::transaction::tx_type_of(txs[0].tx_type) == Some(tx_type)
                &&& cumulative_gas_used == 0
            }
        }),
{
}

/// The stage right after a transaction came to a result is always the one at which
/// its changes are committed. The result is there as the last one, with its kind,
/// success, logs and state; those before it are as they were; and its gas is counted
/// on top of theirs.
pub proof fn law_sequential_commits_every_result(
    txs: Seq<TxEnv>,
    results: Seq<TxResultView>,
    tx_idx: usize,
    tx_type: TxType,
    cumulative_gas_used: u64,
    result: TxExecutionResult,
)
    ensures
        ({
            let sum = cumulative_gas_used + result.receipt.cumulative_gas_used;
            &&& crate::sequential::sequential_next(
                txs,
                SequentialStageView::Transacting { results, tx_idx, tx_type, cumulative_gas_used },
                SequentialEvent::Transacted(Ok(result)),
            ) matches SequentialStageView::Committing { results: more, cumulative_gas_used: total }
            &&& more.len() == results.len() + 1
            &&& forall|j: int| 0 <= j < results.len() ==> #[trigger] more[j] == results[j]
            &&& more[results.len() as int].receipt.tx_type == result.receipt.tx_type
            &&& more[results.len() as int].receipt.success == result.receipt.success
            &&& more[results.len() as int].receipt.logs == result.receipt.logs
            &&& more[results.len() as int].receipt.cumulative_gas_used == total
            &&& more[results.len() as int].state == crate::account::state_view(result.state)
            &&& sum <= u64::MAX ==> total == sum
            &&& sum > u64::MAX ==> total == u64::MAX
        }),
{
}

/// A transaction that fails ends the sequential execution with its error.
pub proof fn law_sequential_fails(
    txs: Seq<TxEnv>,
    results: Seq<TxResultView>,
    tx_idx: usize,
    tx_type: TxType,
    cumulative_gas_used: u64,
    error: ExecutionError,
)
    ensures
        crate::sequential::sequential_next(
            txs,
            SequentialStageView::Transacting { results, tx_idx, tx_type, cumulative_gas_used },
            SequentialEvent::Transacted(Err(error)),
        ) == SequentialStageView::Done(Err(ErrorView::Execution(error@))),
{
}

/// Once changes are committed the next transaction is up, with all that was known
/// before. After the last transaction the execution is done with all results; and
/// it is done with an error if the next type byte stands for nothing.
pub proof fn law_sequential_goes_on(
    txs: Seq<TxEnv>,
    results: Seq<TxResultView>,
    cumulative_gas_used: u64,
)
    requires
        txs.len() <= usize::MAX,
    ensures
        ({
            let next = crate::sequential::sequential_next(
                txs,
                SequentialStageView::Committing { results, cumulative_gas_used },
                SequentialEvent::Committed,
            );
            let up = results.len() as int;
            &&& up >= txs.len() ==> next == SequentialStageView::Done(Ok(results))
            &&& up < txs.len() && txs[up].tx_type > 4 ==> next == SequentialStageView::Done(
                Err(ErrorView::Unreachable),
            )
            &&& up < txs.len() && txs[up].tx_type <= 4 ==> {
                &&& next matches SequentialStageView::Transacting {
                    results: kept,
                    tx_idx,
                    tx_type,
                    cumulative_gas_used: used,
                }
                &&& kept == results
                &&& tx_idx == up
                &&& crate::transaction::tx_type_of(txs[up].tx_type) == Some(tx_type)
                &&& used == cumulative_gas_used
            }
        }),
{
}

/// The stage of a sequential execution after the first `n` events.
pub open spec fn sequential_stage(
    txs: Seq<TxEnv>,
    events: Seq<SequentialEvent>,
    n: nat,
) -> SequentialStageView
    decreases n,
{
    if n == 0 {
        SequentialStageView::Start
    } else {
        crate::sequential::sequential_next(
            txs,
            sequential_stage(txs, events, (n - 1) as nat),
            events[n - 1],
        )
    }
}

/// Whether each event is one that the stage before it waits for.
pub open spec fn events_fit(txs: Seq<TxEnv>, events: Seq<SequentialEvent>) -> bool {
    forall|k: nat|
        k < events.len() ==> crate::sequential::sequential_event_fits(
            #[trigger] sequential_stage(txs, events, k),
            events[k as int],
        )
}

/// Whether results are those that the transactions came to, each at its event, but
/// for the gas.
pub open spec fn holds_outcomes(
    results: Seq<TxResultView>,
    events: Seq<SequentialEvent>,
) -> bool {
    forall|i: int|
        0 <= i < results.len() ==> {
            &&& 2 * i + 1 < events.len()
            &&& events[2 * i + 1] matches SequentialEvent::Transacted(Ok(own))
            &&& (#[trigger] results[i]).receipt.tx_type == own.receipt.tx_type
            &&& results[i].receipt.success == own.receipt.success
            &&& results[i].receipt.logs == own.receipt.logs
            &&& results[i].state == crate::account::state_view(own.state)
        }
}

/// Beginning aside, a sequential execution alternates: a transaction is up after
/// every odd event, and its changes are to be committed after the next. At each stage
/// it holds one result for each transaction that came to one, in order.
pub proof fn law_sequential_stages(txs: Seq<TxEnv>, events: Seq<SequentialEvent>, n: nat)
    requires
        txs.len() <= usize::MAX,
        events_fit(txs, events),
        n <= events.len(),
    ensures
        match sequential_stage(txs, events, n) {
            SequentialStageView::Start => n == 0,
            SequentialStageView::Transacting { results, tx_idx, .. } => {
                &&& n == 2 * tx_idx + 1
                &&& tx_idx < txs.len()
                &&& results.len() == tx_idx
                &&& holds_outcomes(results, events)
            },
            SequentialStageView::Committing { results, .. } => {
                &&& n == 2 * results.len()
                &&& 0 < results.len() <= txs.len()
                &&& holds_outcomes(results, events)
            },
            SequentialStageView::Done(Ok(results)) => {
                &&& n == events.len() == 2 * txs.len() + 1
                &&& results.len() == txs.len()
                &&& holds_outcomes(results, events)
            },
            SequentialStageView::Done(Err(_)) => n == events.len(),
        },
    decreases n,
{
    if n > 0 {
        let m = (n - 1) as nat;
        law_sequential_stages(txs, events, m);
        let before = sequential_stage(txs, events, m);
        assert(crate::sequential::sequential_event_fits(before, events[m as int]));
        if n < events.len() {
            assert(crate::sequential::sequential_event_fits(
                sequential_stage(txs, events, n),
                events[n as int],
            ));
        }
        match (before, events[m as int]) {
            (
                SequentialStageView::Transacting {
                    results,
                    tx_idx,
                    tx_type,
                    cumulative_gas_used,
                },
                SequentialEvent::Transacted(Ok(result)),
            ) => {
                law_sequential_commits_every_result(
                    txs,
                    results,
                    tx_idx,
                    tx_type,
                    cumulative_gas_used,
                    result,
                );
                let more = sequential_stage(txs, events, n)->Committing_results;
                assert forall|i: int| 0 <= i < more.len() implies {
                    &&& 2 * i + 1 < events.len()
                    &&& events[2 * i + 1] matches SequentialEvent::Transacted(Ok(own))
                    &&& (#[trigger] more[i]).receipt.tx_type == own.receipt.tx_type
                    &&& more[i].receipt.success == own.receipt.success
                    &&& more[i].receipt.logs == own.receipt.logs
                    &&& more[i].state == crate::account::state_view(own.state)
                } by {
                    if i < results.len() {
                        assert(more[i] == results[i]);
                    }
                }
            },
            _ => {},
        }
    }
}

/// Between the executions of two transactions one behind the other there is exactly
/// one stage, and at it the changes of the first are committed: it came to a result,
/// which is the last one there.
pub proof fn law_one_commit_between_transactions(
    txs: Seq<TxEnv>,
    events: Seq<SequentialEvent>,
    m: nat,
    n: nat,
)
    requires
        txs.len() <= usize::MAX,
        events_fit(txs, events),
        m <= events.len(),
        n <= events.len(),
        sequential_stage(txs, events, m) is Transacting,
        sequential_stage(txs, events, n) is Transacting,
        sequential_stage(txs, events, n)->Transacting_tx_idx == sequential_stage(
            txs,
            events,
            m,
        )->Transacting_tx_idx + 1,
    ensures
        n == m + 2,
        events[m as int] matches SequentialEvent::Transacted(Ok(_)),
        events[(m + 1) as int] is Committed,
        ({
            let own = events[m as int]->Transacted_0->Ok_0;
            &&& sequential_stage(txs, events, m + 1) matches SequentialStageView::Committing {
                results,
                ..
            }
            &&& results.len() == sequential_stage(txs, events, m)->Transacting_tx_idx + 1
            &&& results.last().state == crate::account::state_view(own.state)
            &&& results.last().receipt.success == own.receipt.success
        }),
{
    law_sequential_stages(txs, events, m);
    law_sequential_stages(txs, events, n);
    law_sequential_stages(txs, events, m + 1);
    assert(crate::sequential::sequential_event_fits(
        sequential_stage(txs, events, m),
        events[m as int],
    ));
    assert(crate::sequential::sequential_event_fits(
        sequential_stage(txs, events, m + 1),
        events[(m + 1) as int],
    ));
}

/// A sequential execution that ends with results has committed the changes of every
/// transaction, each right after it came to its result.
pub proof fn law_every_transaction_is_committed(
    txs: Seq<TxEnv>,
    events: Seq<SequentialEvent>,
    i: int,
)
    requires
        txs.len() <= usize::MAX,
        events_fit(txs, events),
        sequential_stage(txs, events, events.len()) matches SequentialStageView::Done(Ok(_)),
        0 <= i < txs.len(),
    ensures
        events.len() == 2 * txs.len() + 1,
        events[2 * i + 1] matches SequentialEvent::Transacted(Ok(_)),
        events[2 * i + 2] is Committed,
        sequential_stage(txs, events, (2 * i + 2) as nat) is Committing,
{
    law_sequential_stages(txs, events, events.len());
    law_sequential_stages(txs, events, (2 * i + 1) as nat);
    law_sequential_stages(txs, events, (2 * i + 2) as nat);
    assert(crate::sequential::sequential_event_fits(
        sequential_stage(txs, events, (2 * i + 1) as nat),
        events[2 * i + 1],
    ));
    assert(crate::sequential::sequential_event_fits(
        sequential_stage(txs, events, (2 * i + 2) as nat),
        events[2 * i + 2],
    ));
}

/// The event that each stage of a block waits for. Workers are waited for until they
/// have stopped, with a result for each transaction unless the block was aborted; and
/// code, until it can be told what becomes of its account.
pub proof fn law_block_waits(
    executor: ExecutorView,
    txs: Seq<TxEnv>,
    stage: StageView,
    event: BlockEvent,
)
    ensures
        crate::op_executor::event_fits(executor, txs, stage, event) <==> {
            ||| stage is Start && event is Begin && event->concurrency_level > 0
            ||| stage is Working && event is WorkersJoined && (executor.abort_reason is Some || (
            txs.len() <= executor.slots.len() && forall|i: int|
                0 <= i < txs.len() ==> (#[trigger] executor.slots[i]) is Some))
            ||| stage is Sequential && event is ExecutedSequentially
            ||| stage is Settling && event is LazyAddress
            ||| stage is ReadingAccount && event is AccountRead
            ||| stage is ReadingCode && event is CodeRead && (event->CodeRead_0 is Ok
                ==> stage->ReadingCode_results.len() == txs.len() && (Evaluation {
                address: stage->ReadingCode_address,
                history: stage->ReadingCode_history,
                start: stage->start,
                txs,
            }).evaluable())
        },
{
}

/// A block without transactions is done at once, with no results. Any other begins
/// with as many workers as it is given, and with a slot for each transaction: the
/// slots that there are stay as they are, and those that are added are empty.
pub proof fn law_block_begins(
    executor: ExecutorView,
    txs: Seq<TxEnv>,
    spec: SpecId,
    concurrency_level: usize,
)
    requires
        txs.len() <= usize::MAX,
    ensures
        ({
            let begin = BlockEvent::Begin { concurrency_level };
            let stage = crate::op_executor::stage_next(
                executor,
                txs,
                spec,
                StageView::Start,
                begin,
            );
            let after = crate::op_executor::executor_next(executor, txs, StageView::Start, begin);
            &&& txs.len() == 0 ==> stage == StageView::Done(Ok(Seq::<TxResultView>::empty()))
            &&& txs.len() > 0 ==> {
                &&& stage matches StageView::Working { block_size, workers }
                &&& block_size == txs.len()
                &&& workers == concurrency_level
            }
            &&& after.abort_reason == executor.abort_reason
            &&& after.worker == executor.worker
            &&& executor.slots.len() >= txs.len() ==> after.slots.len() == executor.slots.len()
            &&& executor.slots.len() < txs.len() ==> after.slots.len() == txs.len()
            &&& forall|i: int|
                0 <= i < executor.slots.len() ==> #[trigger] after.slots[i] == executor.slots[i]
            &&& forall|i: int|
                executor.slots.len() <= i < after.slots.len() ==> (
                #[trigger] after.slots[i]) is None
        }),
{
}

/// Once its workers have stopped, a block that was aborted falls back to sequential
/// execution or ends with the error of the execution that failed, as the reason for
/// the abort says; any other is settled. The executor keeps no reason for an abort.
/// The slots of a block that is settled are empty then, and all others stay.
pub proof fn law_workers_joined(
    executor: ExecutorView,
    txs: Seq<TxEnv>,
    spec: SpecId,
    block_size: usize,
    workers: usize,
)
    ensures
        ({
            let working = StageView::Working { block_size, workers };
            let stage = crate::op_executor::stage_next(
                executor,
                txs,
                spec,
                working,
                BlockEvent::WorkersJoined,
            );
            let after = crate::op_executor::executor_next(
                executor,
                txs,
                working,
                BlockEvent::WorkersJoined,
            );
            &&& stage is Settling <==> executor.abort_reason is None
            &&& stage is Sequential <==> executor.abort_reason == Some(
                AbortReason::FallbackToSequential,
            )
            &&& executor.abort_reason matches Some(AbortReason::ExecutionError(error)) ==> stage
                == StageView::Done(Err(ErrorView::Execution(error@)))
            &&& after.abort_reason is None
            &&& after.worker == executor.worker
            &&& after.slots.len() == executor.slots.len()
            &&& forall|i: int|
                0 <= i < executor.slots.len() ==> #[trigger] after.slots[i] == (
                if executor.abort_reason is None && i < txs.len() {
                    None
                } else {
                    executor.slots[i]
                })
        }),
{
}

/// A block that fell back to sequential execution ends with what that came to.
pub proof fn law_fallback_ends(
    executor: ExecutorView,
    txs: Seq<TxEnv>,
    spec: SpecId,
    outcome: ParallelExecutorResult,
)
    ensures
        outcome matches Ok(results) ==> crate::op_executor::stage_next(
            executor,
            txs,
            spec,
            StageView::Sequential,
            BlockEvent::ExecutedSequentially(outcome),
        ) == StageView::Done(Ok(crate::result::results_view(results@))),
        outcome matches Err(error) ==> crate::op_executor::stage_next(
            executor,
            txs,
            spec,
            StageView::Sequential,
            BlockEvent::ExecutedSequentially(outcome),
        ) == StageView::Done(Err(error@)),
{
}

/// Where no lazily updated account is left the block ends with its results as they
/// are, and an account that nobody wrote to changes nothing.
pub proof fn law_settlement_ends(
    executor: ExecutorView,
    txs: Seq<TxEnv>,
    spec: SpecId,
    results: Seq<TxResultView>,
    address: Address,
)
    ensures
        crate::op_executor::stage_next(
            executor,
            txs,
            spec,
            StageView::Settling { results },
            BlockEvent::LazyAddress(None),
        ) == StageView::Done(Ok(results)),
        crate::op_executor::stage_next(
            executor,
            txs,
            spec,
            StageView::Settling { results },
            BlockEvent::LazyAddress(Some((address, None))),
        ) == (StageView::Settling { results }),
{
}

/// An account whose earliest entry is an absolute value needs no stored account: it
/// starts from nothing, and its code is read next. Of any other account what the
/// storage holds is read first. Nothing that is known gets lost.
pub proof fn law_account_is_named(
    executor: ExecutorView,
    txs: Seq<TxEnv>,
    spec: SpecId,
    results: Seq<TxResultView>,
    address: Address,
    history: WriteHistory,
    first: TxIdx,
)
    requires
        history@.contains_key(first),
        forall|i: TxIdx| #[trigger] history@.contains_key(i) ==> first <= i,
    ensures
        ({
            let stage = crate::op_executor::stage_next(
                executor,
                txs,
                spec,
                StageView::Settling { results },
                BlockEvent::LazyAddress(Some((address, Some(history)))),
            );
            let absolute = history@[first] matches Entry::Data(_, LocationValue::Basic(_));
            &&& absolute ==> stage == (StageView::ReadingCode {
                results,
                address,
                history: history@,
                start: LazyAccountView {
                    balance: 0,
                    nonce: 0,
                    code_hash: crate::primitives::keccak_empty_hash(),
                },
            })
            &&& !absolute ==> stage == (StageView::ReadingAccount {
                results,
                address,
                history: history@,
            })
        }),
{
    let stage = crate::op_executor::stage_next(
        executor,
        txs,
        spec,
        StageView::Settling { results },
        BlockEvent::LazyAddress(Some((address, Some(history)))),
    );
    if let Entry::Data(_, LocationValue::Basic(_)) = history@[first] {
        assert(crate::mv_memory::begins_absolute(history@));
    } else if crate::mv_memory::begins_absolute(history@) {
        let other = choose|other: TxIdx|
            {
                &&& #[trigger] history@.contains_key(other)
                &&& forall|i: TxIdx| #[trigger] history@.contains_key(i) ==> other <= i
                &&& history@[other] matches Entry::Data(_, LocationValue::Basic(_))
            };
        assert(other == first);
    }
}

/// An account with an empty history is read from the storage.
pub proof fn law_empty_history_is_read(
    executor: ExecutorView,
    txs: Seq<TxEnv>,
    spec: SpecId,
    results: Seq<TxResultView>,
    address: Address,
    history: WriteHistory,
)
    requires
        history@ == Map::<TxIdx, Entry>::empty(),
    ensures
        crate::op_executor::stage_next(
            executor,
            txs,
            spec,
            StageView::Settling { results },
            BlockEvent::LazyAddress(Some((address, Some(history)))),
        ) == (StageView::ReadingAccount { results, address, history: history@ }),
{
}

/// An account starts with the balance, the nonce and the code hash that the storage
/// has; and with nothing and the hash of no code, where the storage has no account
/// or fails. Its code is read next.
pub proof fn law_account_is_read(
    executor: ExecutorView,
    txs: Seq<TxEnv>,
    spec: SpecId,
    results: Seq<TxResultView>,
    address: Address,
    history: Map<TxIdx, Entry>,
    answer: Result<Option<AccountInfo>, String>,
)
    ensures
        ({
            &&& crate::op_executor::stage_next(
                executor,
                txs,
                spec,
                StageView::ReadingAccount { results, address, history },
                BlockEvent::AccountRead(answer),
            ) matches StageView::ReadingCode {
                results: kept,
                address: named,
                history: written,
                start,
            }
            &&& kept == results
            &&& named == address
            &&& written == history
            &&& answer matches Ok(Some(info)) ==> {
                &&& start.balance == info.balance@
                &&& start.nonce == info.nonce
                &&& start.code_hash == info.code_hash
            }
            &&& !(answer matches Ok(Some(_))) ==> {
                &&& start.balance == 0
                &&& start.nonce == 0
                &&& start.code_hash == crate::primitives::keccak_empty_hash()
            }
        }),
{
}

/// A block ends with the storage's words where the storage fails for the code of an
/// account; with the error that the account's evaluation comes to; and else goes on,
/// with as many results as before.
pub proof fn law_code_is_read(
    executor: ExecutorView,
    txs: Seq<TxEnv>,
    spec: SpecId,
    results: Seq<TxResultView>,
    address: Address,
    history: Map<TxIdx, Entry>,
    start: LazyAccountView,
    answer: Result<Bytecode, String>,
)
    ensures
        ({
            let stage = crate::op_executor::stage_next(
                executor,
                txs,
                spec,
                StageView::ReadingCode { results, address, history, start },
                BlockEvent::CodeRead(answer),
            );
            let eval = Evaluation { address, history, start, txs };
            &&& answer matches Err(words) ==> stage == StageView::Done(
                Err(ErrorView::Storage(words@)),
            )
            &&& answer is Ok && eval.after(txs.len()) is Err ==> stage == StageView::Done(
                Err(eval.after(txs.len())->Err_0),
            )
            &&& answer is Ok && eval.after(txs.len()) is Ok ==> {
                &&& stage matches StageView::Settling { results: settled }
                &&& settled.len() == results.len()
            }
        }),
{
}

} // verus!
