//! What holds of the execution of a block from its beginning to its end.

use crate::account::{AccountInfo, Bytecode};
use crate::laws::settlement::LazyRead;
use crate::laws::workers::ExecutionStep;
use crate::lazy::{Evaluation, LazyAccountView};
use crate::mv_memory::{Entry, WriteHistory};
use crate::op_executor::{BlockEvent, ExecutorView, StageView};
use crate::primitives::{Address, SpecId, TxIdx};
use crate::result::{
    AbortReason, ErrorView, ExecutionError, ParallelExecutorResult, TxExecutionResult,
    TxResultView,
};
use crate::sequential::SequentialStageView;
use crate::transaction::TxEnv;
use vstd::prelude::*;

verus! {

/// A lazily updated account, and what the storage answers when it is asked.
pub struct LazyAccess {
    pub address: Address,
    /// What the transactions wrote to the account, if they wrote anything.
    pub history: Option<WriteHistory>,
    /// The answer for the account.
    pub account: Result<Option<AccountInfo>, String>,
    /// The answer for its code.
    pub code: Result<Bytecode, String>,
}

impl LazyAccess {
    /// The account before the block. It does not matter, and is not read, where
    /// the first transaction that wrote to the account wrote an absolute value.
    pub open spec fn start(self) -> LazyAccountView {
        if crate::mv_memory::begins_absolute(self.history->Some_0@) {
            crate::lazy::absent_account()
        } else {
            crate::lazy::stored_account(self.account)
        }
    }

    /// The evaluation of the account over a block.
    pub open spec fn evaluation(self, txs: Seq<TxEnv>) -> Evaluation {
        Evaluation {
            address: self.address,
            history: self.history->Some_0@,
            start: self.start(),
            txs,
        }
    }

    /// The results with the account in them, or why there are none.
    pub open spec fn settle(
        self,
        txs: Seq<TxEnv>,
        spec: SpecId,
        results: Seq<TxResultView>,
    ) -> Result<Seq<TxResultView>, ErrorView> {
        if self.history is None {
            Ok(results)
        } else {
            match self.code {
                Ok(code) => self.evaluation(txs).settle(results, code@, spec),
                Err(words) => Err(ErrorView::Storage(words@)),
            }
        }
    }
}

/// The results with all accounts in them, or the first reason why there are none.
pub open spec fn settle_accesses(
    txs: Seq<TxEnv>,
    spec: SpecId,
    results: Seq<TxResultView>,
    accesses: Seq<LazyAccess>,
) -> Result<Seq<TxResultView>, ErrorView>
    decreases accesses.len(),
{
    if accesses.len() == 0 {
        Ok(results)
    } else {
        match settle_accesses(txs, spec, results, accesses.drop_last()) {
            Ok(settled) => accesses.last().settle(txs, spec, settled),
            Err(error) => Err(error),
        }
    }
}

/// The stage after one account was named and the storage answered all that it was
/// asked.
pub open spec fn access_run(
    executor: ExecutorView,
    txs: Seq<TxEnv>,
    spec: SpecId,
    stage: StageView,
    access: LazyAccess,
) -> StageView {
    let named = crate::op_executor::stage_next(
        executor,
        txs,
        spec,
        stage,
        BlockEvent::LazyAddress(Some((access.address, access.history))),
    );
    let started = if named is ReadingAccount {
        crate::op_executor::stage_next(
            executor,
            txs,
            spec,
            named,
            BlockEvent::AccountRead(access.account),
        )
    } else {
        named
    };
    if started is ReadingCode {
        crate::op_executor::stage_next(
            executor,
            txs,
            spec,
            started,
            BlockEvent::CodeRead(access.code),
        )
    } else {
        started
    }
}

/// The stage after all accounts, or after those up to the one with which the block
/// was done.
pub open spec fn accesses_run(
    executor: ExecutorView,
    txs: Seq<TxEnv>,
    spec: SpecId,
    stage: StageView,
    accesses: Seq<LazyAccess>,
) -> StageView
    decreases accesses.len(),
{
    if accesses.len() == 0 {
        stage
    } else {
        let before = accesses_run(executor, txs, spec, stage, accesses.drop_last());
        if before is Done {
            before
        } else {
            access_run(executor, txs, spec, before, accesses.last())
        }
    }
}

/// The stage of a block once its workers have stopped and its lazily updated
/// accounts have been named to the last.
pub open spec fn settlement_run(
    executor: ExecutorView,
    txs: Seq<TxEnv>,
    spec: SpecId,
    stage: StageView,
    accesses: Seq<LazyAccess>,
) -> StageView {
    let settled = accesses_run(executor, txs, spec, stage, accesses);
    if settled is Done {
        settled
    } else {
        crate::op_executor::stage_next(
            executor,
            txs,
            spec,
            settled,
            BlockEvent::LazyAddress(None),
        )
    }
}

/// The stages of a block's settlement hold the results with all accounts so far
/// in them.
proof fn lemma_accesses_run(
    executor: ExecutorView,
    txs: Seq<TxEnv>,
    spec: SpecId,
    results: Seq<TxResultView>,
    accesses: Seq<LazyAccess>,
)
    ensures
        accesses_run(executor, txs, spec, StageView::Settling { results }, accesses) == (
        match settle_accesses(txs, spec, results, accesses) {
            Ok(settled) => StageView::Settling { results: settled },
            Err(error) => StageView::Done(Err(error)),
        }),
    decreases accesses.len(),
{
    if accesses.len() > 0 {
        lemma_accesses_run(executor, txs, spec, results, accesses.drop_last());
    }
}

/// A block whose workers brought in its results ends with those results, every
/// lazily updated account settled in them in turn; or with the first error that
/// the storage or an evaluation comes to.
pub proof fn law_settlement_run(
    executor: ExecutorView,
    txs: Seq<TxEnv>,
    spec: SpecId,
    results: Seq<TxResultView>,
    accesses: Seq<LazyAccess>,
)
    ensures
        settlement_run(executor, txs, spec, StageView::Settling { results }, accesses)
            == StageView::Done(settle_accesses(txs, spec, results, accesses)),
{
    lemma_accesses_run(executor, txs, spec, results, accesses);
}

/// The executor and the stage of a block whose workers have stopped, after the
/// executions that they did.
pub open spec fn workers_run(
    executor: ExecutorView,
    txs: Seq<TxEnv>,
    spec: SpecId,
    concurrency_level: usize,
    steps: Seq<ExecutionStep>,
) -> (ExecutorView, StageView) {
    let begin = BlockEvent::Begin { concurrency_level };
    let began = crate::op_executor::executor_next(executor, txs, StageView::Start, begin);
    let working = crate::op_executor::stage_next(executor, txs, spec, StageView::Start, begin);
    let worked = crate::laws::workers::after_executions(began, steps);
    if working is Done {
        (began, working)
    } else {
        (
            crate::op_executor::executor_next(worked, txs, working, BlockEvent::WorkersJoined),
            crate::op_executor::stage_next(worked, txs, spec, working, BlockEvent::WorkersJoined),
        )
    }
}

/// From the moment that a block begins every one of its transactions has a slot,
/// and the results of transactions beyond it stay where they are.
pub proof fn law_every_transaction_has_a_slot(
    executor: ExecutorView,
    txs: Seq<TxEnv>,
    concurrency_level: usize,
    i: int,
)
    ensures
        ({
            let began = crate::op_executor::executor_next(
                executor,
                txs,
                StageView::Start,
                BlockEvent::Begin { concurrency_level },
            );
            &&& began.slots.len() >= txs.len()
            &&& began.slots.len() >= executor.slots.len()
            &&& 0 <= i < executor.slots.len() ==> began.slots[i] == executor.slots[i]
        }),
{
}

/// A block that an executor was given, and the executions that its workers did.
pub struct BlockRun {
    pub txs: Seq<TxEnv>,
    pub spec: SpecId,
    pub concurrency_level: usize,
    pub steps: Seq<ExecutionStep>,
}

/// The executor after any number of blocks. What follows once the workers of a
/// block have stopped does not change it.
pub open spec fn after_blocks(executor: ExecutorView, blocks: Seq<BlockRun>) -> ExecutorView
    decreases blocks.len(),
{
    if blocks.len() == 0 {
        executor
    } else {
        let last = blocks.last();
        workers_run(
            after_blocks(executor, blocks.drop_last()),
            last.txs,
            last.spec,
            last.concurrency_level,
            last.steps,
        ).0
    }
}

/// Executions do not change the compile worker.
proof fn lemma_executions_keep_worker(executor: ExecutorView, steps: Seq<ExecutionStep>)
    ensures
        crate::laws::workers::after_executions(executor, steps).worker == executor.worker,
    decreases steps.len(),
{
    if steps.len() > 0 {
        lemma_executions_keep_worker(executor, steps.drop_last());
    }
}

/// Whatever came of the blocks before, the executor is ready for the next one: no
/// reason for an abort is kept, and the compile worker is the same.
pub proof fn law_executor_is_reusable(executor: ExecutorView, blocks: Seq<BlockRun>)
    requires
        executor.abort_reason is None,
    ensures
        after_blocks(executor, blocks).abort_reason is None,
        after_blocks(executor, blocks).worker == executor.worker,
    decreases blocks.len(),
{
    if blocks.len() > 0 {
        let last = blocks.last();
        let before = after_blocks(executor, blocks.drop_last());
        let began = crate::op_executor::executor_next(
            before,
            last.txs,
            StageView::Start,
            BlockEvent::Begin { concurrency_level: last.concurrency_level },
        );
        law_executor_is_reusable(executor, blocks.drop_last());
        lemma_executions_keep_worker(began, last.steps);
    }
}

/// Once the workers of a block have stopped, no event changes what the executor
/// keeps.
pub proof fn law_settlement_keeps_executor(
    executor: ExecutorView,
    txs: Seq<TxEnv>,
    stage: StageView,
    event: BlockEvent,
)
    requires
        !(stage is Start),
        !(stage is Working),
    ensures
        crate::op_executor::executor_next(executor, txs, stage, event) == executor,
{
}

/// What comes of a block depends neither on what earlier blocks left in the
/// executor's slots, nor on the number of its workers, nor on the order of their
/// replies. Where two courses of its executions come to the same, they lead to the
/// same stage once the workers have stopped.
pub proof fn law_earlier_blocks_do_not_matter(
    executor: ExecutorView,
    other: ExecutorView,
    txs: Seq<TxEnv>,
    spec: SpecId,
    concurrency_level: usize,
    other_level: usize,
    steps: Seq<ExecutionStep>,
    others: Seq<ExecutionStep>,
)
    requires
        executor.abort_reason is None,
        other.abort_reason is None,
        forall|j: int|
            0 <= j < steps.len() ==> (#[trigger] steps[j]).tx_version.tx_idx < txs.len(),
        forall|j: int|
            0 <= j < others.len() ==> (#[trigger] others[j]).tx_version.tx_idx < txs.len(),
        crate::laws::workers::come_to_the_same(steps, others, txs.len()),
    ensures
        workers_run(executor, txs, spec, concurrency_level, steps).1 == workers_run(
            other,
            txs,
            spec,
            other_level,
            others,
        ).1,
{
    let begin = BlockEvent::Begin { concurrency_level };
    let left = crate::op_executor::executor_next(executor, txs, StageView::Start, begin);
    let right = crate::op_executor::executor_next(other, txs, StageView::Start, begin);
    law_every_transaction_has_a_slot(executor, txs, concurrency_level, 0);
    law_every_transaction_has_a_slot(other, txs, concurrency_level, 0);
    crate::laws::workers::law_abort_reason_is_the_first(left, steps);
    crate::laws::workers::law_abort_reason_is_the_first(right, others);
    if crate::laws::workers::first_abort(steps) is None {
        let results = crate::op_executor::slot_results(
            crate::laws::workers::after_executions(left, steps).slots,
            txs.len(),
        );
        let results_other = crate::op_executor::slot_results(
            crate::laws::workers::after_executions(right, others).slots,
            txs.len(),
        );
        assert forall|i: int| 0 <= i < txs.len() implies results[i] == results_other[i] by {
            assert(crate::laws::workers::last_result(steps, i) is Some);
            crate::laws::workers::law_slot_holds_last_result(left, steps, i);
            crate::laws::workers::law_slot_holds_last_result(right, others, i);
        }
        assert(results =~= results_other);
    }
}

/// Whether two lists name the same accounts with the same answers, in whatever
/// order: each account once, and none that comes to an error. Accounts that are
/// named in the same order may come to one.
pub open spec fn same_accesses(
    txs: Seq<TxEnv>,
    accesses: Seq<LazyAccess>,
    others: Seq<LazyAccess>,
) -> bool {
    ||| accesses == others
    ||| {
        &&& accesses.to_set() == others.to_set()
        &&& forall|j: int, k: int|
            0 <= j < k < accesses.len() ==> (#[trigger] accesses[j]).address != (
            #[trigger] accesses[k]).address
        &&& forall|j: int, k: int|
            0 <= j < k < others.len() ==> (#[trigger] others[j]).address != (
            #[trigger] others[k]).address
        &&& forall|k: int|
            0 <= k < accesses.len() ==> access_succeeds(txs, #[trigger] accesses[k])
    }
}

/// The stage at which a block ends: after its lazily updated accounts have been
/// named to the last, or after the sequential execution that it falls back to.
pub open spec fn block_run(
    executor: ExecutorView,
    txs: Seq<TxEnv>,
    spec: SpecId,
    concurrency_level: usize,
    steps: Seq<ExecutionStep>,
    accesses: Seq<LazyAccess>,
    sequential: ParallelExecutorResult,
) -> StageView {
    let (after, stage) = workers_run(executor, txs, spec, concurrency_level, steps);
    if stage is Sequential {
        crate::op_executor::stage_next(
            after,
            txs,
            spec,
            stage,
            BlockEvent::ExecutedSequentially(sequential),
        )
    } else {
        settlement_run(after, txs, spec, stage, accesses)
    }
}

/// A block that is done stays as it is.
pub(crate) proof fn lemma_done_is_settled(
    executor: ExecutorView,
    txs: Seq<TxEnv>,
    spec: SpecId,
    stage: StageView,
    accesses: Seq<LazyAccess>,
)
    requires
        stage is Done,
    ensures
        accesses_run(executor, txs, spec, stage, accesses) == stage,
    decreases accesses.len(),
{
    if accesses.len() > 0 {
        lemma_done_is_settled(executor, txs, spec, stage, accesses.drop_last());
    }
}

/// An executor that has been given any number of blocks, whatever came of them,
/// makes of the next one what a new executor makes of it: nothing of the blocks
/// before gets into it. It ends alike, with results or with an error, in whatever
/// order the workers and the memory get on.
pub proof fn law_used_executor_is_as_good_as_new(
    executor: ExecutorView,
    blocks: Seq<BlockRun>,
    txs: Seq<TxEnv>,
    spec: SpecId,
    concurrency_level: usize,
    other_level: usize,
    steps: Seq<ExecutionStep>,
    others: Seq<ExecutionStep>,
    accesses: Seq<LazyAccess>,
    other_accesses: Seq<LazyAccess>,
    sequential: ParallelExecutorResult,
)
    requires
        executor.slots.len() == 0,
        executor.abort_reason is None,
        forall|j: int|
            0 <= j < steps.len() ==> (#[trigger] steps[j]).tx_version.tx_idx < txs.len(),
        forall|j: int|
            0 <= j < others.len() ==> (#[trigger] others[j]).tx_version.tx_idx < txs.len(),
        crate::laws::workers::come_to_the_same(steps, others, txs.len()),
        same_accesses(txs, accesses, other_accesses),
    ensures
        block_run(
            after_blocks(executor, blocks),
            txs,
            spec,
            concurrency_level,
            steps,
            accesses,
            sequential,
        ) is Done,
        block_run(
            after_blocks(executor, blocks),
            txs,
            spec,
            concurrency_level,
            steps,
            accesses,
            sequential,
        ) == block_run(executor, txs, spec, other_level, others, other_accesses, sequential),
{
    let used = after_blocks(executor, blocks);
    law_executor_is_reusable(executor, blocks);
    law_earlier_blocks_do_not_matter(
        used,
        executor,
        txs,
        spec,
        concurrency_level,
        other_level,
        steps,
        others,
    );
    let (after, stage) = workers_run(used, txs, spec, concurrency_level, steps);
    let (fresh, expected) = workers_run(executor, txs, spec, other_level, others);
    match stage {
        StageView::Settling { results } => {
            law_settlement_run(after, txs, spec, results, accesses);
            law_settlement_run(fresh, txs, spec, results, other_accesses);
            if accesses != other_accesses {
                law_lazy_address_order(txs, spec, results, accesses, other_accesses);
            }
        },
        StageView::Done(_) => {
            lemma_done_is_settled(after, txs, spec, stage, accesses);
            lemma_done_is_settled(fresh, txs, spec, expected, other_accesses);
        },
        _ => {},
    }
}

/// An empty block has no results, and nothing is done for it.
pub proof fn law_empty_block(
    executor: ExecutorView,
    txs: Seq<TxEnv>,
    spec: SpecId,
    concurrency_level: usize,
    steps: Seq<ExecutionStep>,
)
    requires
        txs.len() == 0,
    ensures
        workers_run(executor, txs, spec, concurrency_level, steps) == (
            executor,
            StageView::Done(Ok(Seq::<TxResultView>::empty())),
        ),
{
}

/// A block in which no execution aborts ends with what the workers brought in:
/// each transaction's last result, the gas counted up, and every lazily updated
/// account settled.
pub proof fn law_parallel_block(
    executor: ExecutorView,
    txs: Seq<TxEnv>,
    spec: SpecId,
    concurrency_level: usize,
    steps: Seq<ExecutionStep>,
    accesses: Seq<LazyAccess>,
)
    requires
        executor.abort_reason is None,
        txs.len() > 0,
        forall|i: int|
            0 <= i < steps.len() ==> !crate::laws::workers::is_abort(#[trigger] steps[i]),
    ensures
        ({
            let began = ExecutorView {
                slots: crate::op_executor::grown_slots(executor.slots, txs.len()),
                ..executor
            };
            let worked = crate::laws::workers::after_executions(began, steps);
            let (after, stage) = workers_run(executor, txs, spec, concurrency_level, steps);
            settlement_run(after, txs, spec, stage, accesses) == StageView::Done(
                settle_accesses(
                    txs,
                    spec,
                    crate::gas::with_cumulative_gas(
                        crate::op_executor::slot_results(worked.slots, txs.len()),
                    ),
                    accesses,
                ),
            )
        }),
{
    let began = crate::op_executor::executor_next(
        executor,
        txs,
        StageView::Start,
        BlockEvent::Begin { concurrency_level },
    );
    let worked = crate::laws::workers::after_executions(began, steps);
    crate::laws::workers::law_no_abort_without_reason(began, steps);
    let (after, stage) = workers_run(executor, txs, spec, concurrency_level, steps);
    law_settlement_run(
        after,
        txs,
        spec,
        crate::gas::with_cumulative_gas(
            crate::op_executor::slot_results(worked.slots, txs.len()),
        ),
        accesses,
    );
}

/// A block whose first abort asks for sequential execution ends with what the
/// sequential execution comes to, whatever the workers brought in.
pub proof fn law_fallback_block(
    executor: ExecutorView,
    txs: Seq<TxEnv>,
    spec: SpecId,
    concurrency_level: usize,
    steps: Seq<ExecutionStep>,
    first: int,
    outcome: ParallelExecutorResult,
)
    requires
        executor.abort_reason is None,
        txs.len() > 0,
        0 <= first < steps.len(),
        crate::laws::workers::aborts_for(steps[first], AbortReason::FallbackToSequential),
        forall|i: int| 0 <= i < first ==> !crate::laws::workers::is_abort(#[trigger] steps[i]),
    ensures
        ({
            let (after, stage) = workers_run(executor, txs, spec, concurrency_level, steps);
            crate::op_executor::stage_next(
                after,
                txs,
                spec,
                stage,
                BlockEvent::ExecutedSequentially(outcome),
            ) == StageView::Done(crate::result::outcome_view(outcome))
        }),
{
    let began = crate::op_executor::executor_next(
        executor,
        txs,
        StageView::Start,
        BlockEvent::Begin { concurrency_level },
    );
    crate::laws::workers::law_first_abort_stands(
        began,
        steps,
        first,
        AbortReason::FallbackToSequential,
    );
}

/// A block whose first abort is for a failed execution ends with the error of
/// that execution.
pub proof fn law_failed_block(
    executor: ExecutorView,
    txs: Seq<TxEnv>,
    spec: SpecId,
    concurrency_level: usize,
    steps: Seq<ExecutionStep>,
    first: int,
    error: ExecutionError,
)
    requires
        executor.abort_reason is None,
        txs.len() > 0,
        0 <= first < steps.len(),
        crate::laws::workers::aborts_for(steps[first], AbortReason::ExecutionError(error)),
        forall|i: int| 0 <= i < first ==> !crate::laws::workers::is_abort(#[trigger] steps[i]),
    ensures
        workers_run(executor, txs, spec, concurrency_level, steps).1 == StageView::Done(
            Err(ErrorView::Execution(error@)),
        ),
{
    let began = crate::op_executor::executor_next(
        executor,
        txs,
        StageView::Start,
        BlockEvent::Begin { concurrency_level },
    );
    crate::laws::workers::law_first_abort_stands(
        began,
        steps,
        first,
        AbortReason::ExecutionError(error),
    );
}

/// Settling accounts leaves the number of results and all receipts as they were.
pub proof fn law_settlement_keeps_receipts(
    txs: Seq<TxEnv>,
    spec: SpecId,
    results: Seq<TxResultView>,
    accesses: Seq<LazyAccess>,
    i: int,
)
    requires
        settle_accesses(txs, spec, results, accesses) is Ok,
        0 <= i < results.len(),
    ensures
        settle_accesses(txs, spec, results, accesses)->Ok_0.len() == results.len(),
        settle_accesses(txs, spec, results, accesses)->Ok_0[i].receipt == results[i].receipt,
    decreases accesses.len(),
{
    if accesses.len() > 0 {
        law_settlement_keeps_receipts(txs, spec, results, accesses.drop_last(), i);
    }
}

/// Whether an account can be settled in a block without an error.
pub open spec fn access_succeeds(txs: Seq<TxEnv>, access: LazyAccess) -> bool {
    access.history is Some ==> access.code is Ok && access.evaluation(txs).after(txs.len()) is Ok
}

/// What is known of an account, once the storage has answered.
pub open spec fn access_read(access: LazyAccess) -> LazyRead {
    LazyRead {
        address: access.address,
        history: match access.history {
            Some(history) => history@,
            None => Map::empty(),
        },
        start: access.start(),
        code: access.code->Ok_0@,
    }
}

/// An account that nobody wrote to stays as it was before the block.
pub(crate) proof fn lemma_no_history(eval: Evaluation, n: nat)
    requires
        eval.history == Map::<TxIdx, Entry>::empty(),
    ensures
        eval.after(n) == Ok::<LazyAccountView, ErrorView>(eval.start),
    decreases n,
{
    if n > 0 {
        lemma_no_history(eval, (n - 1) as nat);
    }
}

/// Settling accounts from the storage's answers is settling what is then known of
/// them.
pub(crate) proof fn lemma_accesses_as_reads(
    txs: Seq<TxEnv>,
    spec: SpecId,
    results: Seq<TxResultView>,
    accesses: Seq<LazyAccess>,
)
    requires
        forall|k: int|
            0 <= k < accesses.len() ==> access_succeeds(txs, #[trigger] accesses[k]),
    ensures
        settle_accesses(txs, spec, results, accesses) == crate::laws::settlement::settle_all(
            txs,
            spec,
            results,
            accesses.map_values(|access: LazyAccess| access_read(access)),
        ),
    decreases accesses.len(),
{
    if accesses.len() > 0 {
        let rest = accesses.drop_last();
        let last = accesses[accesses.len() - 1];
        let reads = accesses.map_values(|access: LazyAccess| access_read(access));
        assert(access_succeeds(txs, last));
        assert forall|k: int| 0 <= k < rest.len() implies access_succeeds(
            txs,
            #[trigger] rest[k],
        ) by {
            assert(rest[k] == accesses[k]);
        }
        lemma_accesses_as_reads(txs, spec, results, rest);
        assert(reads.drop_last() =~= rest.map_values(|access: LazyAccess| access_read(access)));
        if let Ok(before) = settle_accesses(txs, spec, results, rest) {
            let eval = access_read(last).evaluation(txs);
            if last.history is None {
                lemma_no_history(eval, txs.len());
                assert(eval.settle(before, access_read(last).code, spec)->Ok_0 =~= before);
            }
        }
    }
}

/// The order in which the lazily updated accounts of a block are named does not
/// matter for its results, as long as none of them comes to an error.
pub proof fn law_lazy_address_order(
    txs: Seq<TxEnv>,
    spec: SpecId,
    results: Seq<TxResultView>,
    accesses: Seq<LazyAccess>,
    others: Seq<LazyAccess>,
)
    requires
        accesses.to_set() == others.to_set(),
        forall|j: int, k: int|
            0 <= j < k < accesses.len() ==> (#[trigger] accesses[j]).address != (
            #[trigger] accesses[k]).address,
        forall|j: int, k: int|
            0 <= j < k < others.len() ==> (#[trigger] others[j]).address != (
            #[trigger] others[k]).address,
        forall|k: int|
            0 <= k < accesses.len() ==> access_succeeds(txs, #[trigger] accesses[k]),
    ensures
        settle_accesses(txs, spec, results, accesses) == settle_accesses(
            txs,
            spec,
            results,
            others,
        ),
{
    let read = |access: LazyAccess| access_read(access);
    let left = accesses.map_values(read);
    let right = others.map_values(read);
    assert forall|k: int| 0 <= k < others.len() implies access_succeeds(
        txs,
        #[trigger] others[k],
    ) by {
        assert(others.to_set().contains(others[k]));
        let j = choose|j: int| 0 <= j < accesses.len() && accesses[j] == others[k];
        assert(access_succeeds(txs, accesses[j]));
    }
    lemma_accesses_as_reads(txs, spec, results, accesses);
    lemma_accesses_as_reads(txs, spec, results, others);
    assert forall|k: int| 0 <= k < left.len() implies (#[trigger] left[k]).evaluation(txs).after(
        txs.len(),
    ) is Ok by {
        assert(access_succeeds(txs, accesses[k]));
        if accesses[k].history is None {
            lemma_no_history(left[k].evaluation(txs), txs.len());
        }
    }
    assert forall|entry: LazyRead| left.to_set().contains(entry) implies right.to_set().contains(
        entry,
    ) by {
        let j = choose|j: int| 0 <= j < left.len() && left[j] == entry;
        assert(accesses.to_set().contains(accesses[j]));
        let k = choose|k: int| 0 <= k < others.len() && others[k] == accesses[j];
        assert(right[k] == entry);
    }
    assert forall|entry: LazyRead| right.to_set().contains(entry) implies left.to_set().contains(
        entry,
    ) by {
        let j = choose|j: int| 0 <= j < right.len() && right[j] == entry;
        assert(others.to_set().contains(others[j]));
        let k = choose|k: int| 0 <= k < accesses.len() && accesses[k] == others[j];
        assert(left[k] == entry);
    }
    assert(left.to_set() =~= right.to_set());
    assert forall|j: int, k: int| 0 <= j < k < left.len() implies (#[trigger] left[j]).address != (
    #[trigger] left[k]).address by {
        assert(accesses[j].address != accesses[k].address);
    }
    assert forall|j: int, k: int| 0 <= j < k < right.len() implies (#[trigger] right[j]).address
        != (#[trigger] right[k]).address by {
        assert(others[j].address != others[k].address);
    }
    crate::laws::settlement::law_settlement_order(txs, spec, results, left, right);
}

/// A block whose workers bring in the receipts that a sequential execution comes
/// to, and whose lazily updated accounts come to no error, ends with the receipts
/// with which the sequential execution ends.
pub proof fn law_parallel_receipts_match_sequential(
    executor: ExecutorView,
    txs: Seq<TxEnv>,
    spec: SpecId,
    block_size: usize,
    workers: usize,
    outcomes: Seq<Result<TxExecutionResult, ExecutionError>>,
    accesses: Seq<LazyAccess>,
    i: int,
)
    requires
        executor.abort_reason is None,
        crate::op_executor::slots_filled(executor.slots, txs.len()),
        outcomes.len() == txs.len(),
        crate::laws::receipts::types_known(txs, txs.len()),
        crate::laws::receipts::all_executed(outcomes, txs.len()),
        forall|j: int|
            0 <= j < txs.len() ==> (#[trigger] executor.slots[j])->Some_0.receipt == (
            #[trigger] outcomes[j])->Ok_0.receipt,
        settle_accesses(
            txs,
            spec,
            crate::gas::with_cumulative_gas(
                crate::op_executor::slot_results(executor.slots, txs.len()),
            ),
            accesses,
        ) is Ok,
        0 <= i < txs.len(),
    ensures
        ({
            let parallel = settlement_run(
                executor,
                txs,
                spec,
                crate::op_executor::stage_next(
                    executor,
                    txs,
                    spec,
                    StageView::Working { block_size, workers },
                    BlockEvent::WorkersJoined,
                ),
                accesses,
            );
            let sequential = crate::laws::receipts::sequential_run(txs, outcomes, txs.len());
            &&& parallel matches StageView::Done(Ok(results))
            &&& sequential matches SequentialStageView::Done(Ok(expected))
            &&& results.len() == expected.len() == txs.len()
            &&& results[i].receipt == expected[i].receipt
        }),
{
    let raw = crate::op_executor::slot_results(executor.slots, txs.len());
    let counted = crate::gas::with_cumulative_gas(raw);
    let expected = crate::laws::receipts::raw_results(outcomes, txs.len());
    assert forall|j: int| 0 <= j < raw.len() implies (#[trigger] raw[j]).receipt == (
    #[trigger] expected[j]).receipt by {
        assert(executor.slots[j]->Some_0.receipt == outcomes[j]->Ok_0.receipt);
    }
    crate::laws::receipts::law_sequential_results(txs, outcomes);
    crate::laws::receipts::law_gas_depends_on_receipts(raw, expected, i);
    law_settlement_run(executor, txs, spec, counted, accesses);
    law_settlement_keeps_receipts(txs, spec, counted, accesses, i);
}

} // verus!
