//! The parallel executor: it keeps what the workers bring in, decides how an
//! execution and a block go on, and makes the block's results of it.

use crate::account::{AccountInfo, Bytecode};
use crate::lazy::{Evaluation, LazyAccount, LazyAccountView};
use crate::mv_memory::{Entry, WriteHistory};
use crate::primitives::{Address, SpecId, TxIdx};
use crate::result::{
    AbortReason, ErrorView, ParallelExecutorError, ParallelExecutorResult, TxExecutionResult,
    TxResultView, VmExecutionError, VmExecutionResult,
};
use crate::scheduler::{Task, TxVersion};
use crate::transaction::TxEnv;
use vstd::prelude::*;

verus! {

/// Who compiles contracts ahead of their execution.
#[derive(Clone, Copy, Debug, PartialEq, Eq, Structural)]
pub enum CompileWorker {
    /// Nobody: contracts are interpreted.
    Disabled,
    /// A worker that compiles ahead of time.
    Aot,
}

/// The executor of blocks, with the Block-STM algorithm.
#[derive(Debug, PartialEq, Eq)]
pub struct OpParallelExecutor {
    /// For each transaction, the result of its last execution.
    execution_results: Vec<Option<TxExecutionResult>>,
    /// Why the workers have to stop, once they have to.
    abort_reason: Option<AbortReason>,
    /// The compile worker that the virtual machines share.
    pub worker: CompileWorker,
}

/// The model of an [`OpParallelExecutor`].
#[verifier::ext_equal]
pub struct ExecutorView {
    pub slots: Seq<Option<TxExecutionResult>>,
    pub abort_reason: Option<AbortReason>,
    pub worker: CompileWorker,
}

impl View for OpParallelExecutor {
    type V = ExecutorView;

    closed spec fn view(&self) -> ExecutorView {
        ExecutorView {
            slots: self.execution_results@,
            abort_reason: self.abort_reason,
            worker: self.worker,
        }
    }
}

impl Default for OpParallelExecutor {
    /// An executor without results, whose contracts are interpreted.
    fn default() -> (r: OpParallelExecutor)
        ensures
            r@ == (ExecutorView {
                slots: Seq::empty(),
                abort_reason: None,
                worker: CompileWorker::Disabled,
            }),
    {
        OpParallelExecutor {
            execution_results: Vec::new(),
            abort_reason: None,
            worker: CompileWorker::Disabled,
        }
    }
}

/// What the execution of a transaction is waiting for. Every request but `Done`
/// has a reply, which is handed to [`OpParallelExecutor::try_execute`].
#[derive(Debug, PartialEq, Eq)]
pub enum ExecutionRequest {
    /// Execute the transaction.
    Execute(TxVersion),
    /// Make a transaction wait for one before it.
    AddDependency { tx_idx: TxIdx, blocking_tx_idx: TxIdx },
    /// Tell the scheduler to hand out no more tasks; the block is aborted for
    /// this reason.
    AbortScheduler(AbortReason),
    /// Tell the scheduler that the transaction was executed.
    FinishExecution { tx_version: TxVersion, flags: u8 },
    /// The execution is done, with the follow-up to run, if there is one.
    Done(Option<Task>),
}

/// The reply to an [`ExecutionRequest`].
#[derive(Debug, PartialEq, Eq)]
pub enum ExecutionReply {
    /// What the execution came to.
    Executed(Result<VmExecutionResult, VmExecutionError>),
    /// Whether the dependency was added: it is not where the transaction before
    /// has been executed again in the meantime.
    DependencyAdded(bool),
    /// The scheduler hands out no more tasks.
    SchedulerAborted,
    /// The scheduler knows of the execution, and may have a follow-up to run.
    Finished(Option<Task>),
}

/// Whether a reply is one to the request, and names a transaction that has a
/// slot.
pub open spec fn replies_to_execution(
    executor: ExecutorView,
    tx_version: TxVersion,
    request: ExecutionRequest,
    reply: ExecutionReply,
) -> bool {
    match request {
        ExecutionRequest::Execute(_) => match reply {
            ExecutionReply::Executed(Ok(_)) => tx_version.tx_idx < executor.slots.len(),
            ExecutionReply::Executed(Err(_)) => true,
            _ => false,
        },
        ExecutionRequest::AddDependency { .. } => reply is DependencyAdded,
        ExecutionRequest::AbortScheduler(_) => reply is SchedulerAborted,
        ExecutionRequest::FinishExecution { .. } => reply is Finished,
        ExecutionRequest::Done(_) => false,
    }
}

/// The execution again, unless the block has been aborted.
pub open spec fn again_unless_aborted(
    executor: ExecutorView,
    tx_version: TxVersion,
) -> ExecutionRequest {
    if executor.abort_reason is None {
        ExecutionRequest::Execute(tx_version)
    } else {
        ExecutionRequest::Done(None)
    }
}

/// How an execution goes on after a reply.
pub open spec fn execution_next(
    executor: ExecutorView,
    tx_version: TxVersion,
    reply: ExecutionReply,
) -> ExecutionRequest {
    match reply {
        ExecutionReply::Executed(Err(VmExecutionError::Retry)) => again_unless_aborted(
            executor,
            tx_version,
        ),
        ExecutionReply::Executed(Err(VmExecutionError::FallbackToSequential)) =>
            ExecutionRequest::AbortScheduler(AbortReason::FallbackToSequential),
        ExecutionReply::Executed(Err(VmExecutionError::Blocking(blocking_tx_idx))) =>
            ExecutionRequest::AddDependency { tx_idx: tx_version.tx_idx, blocking_tx_idx },
        ExecutionReply::Executed(Err(VmExecutionError::ExecutionError(error))) =>
            ExecutionRequest::AbortScheduler(AbortReason::ExecutionError(error)),
        ExecutionReply::Executed(Ok(VmExecutionResult { execution_result, flags })) =>
            ExecutionRequest::FinishExecution { tx_version, flags },
        ExecutionReply::DependencyAdded(true) => ExecutionRequest::Done(None),
        ExecutionReply::DependencyAdded(false) => again_unless_aborted(executor, tx_version),
        ExecutionReply::SchedulerAborted => ExecutionRequest::Done(None),
        ExecutionReply::Finished(follow_up) => ExecutionRequest::Done(follow_up),
    }
}

/// What the executor keeps of a reply: the result of an execution, and the first
/// reason for which the block was aborted.
pub open spec fn execution_effect(
    executor: ExecutorView,
    tx_version: TxVersion,
    request: ExecutionRequest,
    reply: ExecutionReply,
) -> ExecutorView {
    match (request, reply) {
        (_, ExecutionReply::Executed(Ok(VmExecutionResult { execution_result, flags }))) =>
            ExecutorView {
                slots: executor.slots.update(tx_version.tx_idx as int, Some(execution_result)),
                ..executor
            },
        (ExecutionRequest::AbortScheduler(reason), ExecutionReply::SchedulerAborted) => {
            if executor.abort_reason is None {
                ExecutorView { abort_reason: Some(reason), ..executor }
            } else {
                executor
            }
        },
        _ => executor,
    }
}

impl OpParallelExecutor {
    /// An executor whose contracts are compiled ahead of time.
    pub fn compiler() -> (r: OpParallelExecutor)
        ensures
            r@ == (ExecutorView {
                slots: Seq::empty(),
                abort_reason: None,
                worker: CompileWorker::Aot,
            }),
    {
        OpParallelExecutor {
            execution_results: Vec::new(),
            abort_reason: None,
            worker: CompileWorker::Aot,
        }
    }

    /// Whether the workers have to stop.
    pub fn is_aborted(&self) -> (r: bool)
        ensures
            r == self@.abort_reason is Some,
    {
        self.abort_reason.is_some()
    }

    /// Whether a transaction has a slot for its result.
    pub fn has_slot(&self, tx_idx: TxIdx) -> (r: bool)
        ensures
            r == (tx_idx < self@.slots.len()),
    {
        tx_idx < self.execution_results.len()
    }

    /// Decides how the execution of a transaction goes on, from the reply to
    /// what it was waiting for.
    pub fn try_execute(
        &mut self,
        tx_version: TxVersion,
        request: ExecutionRequest,
        reply: ExecutionReply,
    ) -> (r: ExecutionRequest)
        requires
            replies_to_execution(old(self)@, tx_version, request, reply),
        ensures
            r == execution_next(old(self)@, tx_version, reply),
            final(self)@ == execution_effect(old(self)@, tx_version, request, reply),
    {
        match reply {
            ExecutionReply::Executed(Err(VmExecutionError::Retry)) => {
                if self.abort_reason.is_none() {
                    return ExecutionRequest::Execute(tx_version);
                }
                ExecutionRequest::Done(None)
            },
            ExecutionReply::Executed(Err(VmExecutionError::FallbackToSequential)) => {
                ExecutionRequest::AbortScheduler(AbortReason::FallbackToSequential)
            },
            ExecutionReply::Executed(Err(VmExecutionError::Blocking(blocking_tx_idx))) => {
                ExecutionRequest::AddDependency { tx_idx: tx_version.tx_idx, blocking_tx_idx }
            },
            ExecutionReply::Executed(Err(VmExecutionError::ExecutionError(error))) => {
                ExecutionRequest::AbortScheduler(AbortReason::ExecutionError(error))
            },
            ExecutionReply::Executed(Ok(VmExecutionResult { execution_result, flags })) => {
                self.execution_results[tx_version.tx_idx] = Some(execution_result);
                ExecutionRequest::FinishExecution { tx_version, flags }
            },
            ExecutionReply::DependencyAdded(added) => {
                if !added && self.abort_reason.is_none() {
                    // The transaction before was executed again by the time that it
                    // could be waited for.
                    return ExecutionRequest::Execute(tx_version);
                }
                ExecutionRequest::Done(None)
            },
            ExecutionReply::SchedulerAborted => {
                if let ExecutionRequest::AbortScheduler(reason) = request {
                    if self.abort_reason.is_none() {
                        self.abort_reason = Some(reason);
                    }
                }
                ExecutionRequest::Done(None)
            },
            ExecutionReply::Finished(follow_up) => ExecutionRequest::Done(follow_up),
        }
    }
}

/// What the validation of a transaction is waiting for. Every request but `Done`
/// has a reply, which is handed to [`try_validate`].
#[derive(Clone, Copy, Debug, PartialEq, Eq, Structural)]
pub enum ValidationRequest {
    /// Check that the locations that the transaction read still hold what it
    /// read there.
    ValidateReadLocations(TxIdx),
    /// Try to abort this incarnation of the transaction.
    TryValidationAbort(TxVersion),
    /// Mark all that the transaction wrote as about to be written again.
    ConvertWritesToEstimates(TxIdx),
    /// Tell the scheduler that the transaction was validated, and whether it was
    /// aborted.
    FinishValidation { tx_version: TxVersion, aborted: bool },
    /// The validation is done, with the follow-up to run, if there is one.
    Done(Option<Task>),
}

/// The reply to a [`ValidationRequest`].
#[derive(Clone, Copy, Debug, PartialEq, Eq, Structural)]
pub enum ValidationReply {
    /// Whether the locations still hold what was read there.
    ReadSetValid(bool),
    /// Whether the incarnation was aborted: it is not where another worker has
    /// aborted it already.
    Aborted(bool),
    /// The writes are marked.
    WritesConverted,
    /// The scheduler knows of the validation, and may have a follow-up to run.
    Finished(Option<Task>),
}

/// Whether a reply is one to the request.
pub open spec fn replies_to_validation(request: ValidationRequest, reply: ValidationReply) -> bool {
    match request {
        ValidationRequest::ValidateReadLocations(_) => reply is ReadSetValid,
        ValidationRequest::TryValidationAbort(_) => reply is Aborted,
        ValidationRequest::ConvertWritesToEstimates(_) => reply is WritesConverted,
        ValidationRequest::FinishValidation { .. } => reply is Finished,
        ValidationRequest::Done(_) => false,
    }
}

/// How a validation goes on after a reply.
pub open spec fn validation_next(
    tx_version: TxVersion,
    reply: ValidationReply,
) -> ValidationRequest {
    match reply {
        ValidationReply::ReadSetValid(true) | ValidationReply::Aborted(false) =>
            ValidationRequest::FinishValidation { tx_version, aborted: false },
        ValidationReply::ReadSetValid(false) => ValidationRequest::TryValidationAbort(tx_version),
        ValidationReply::Aborted(true) => ValidationRequest::ConvertWritesToEstimates(
            tx_version.tx_idx,
        ),
        ValidationReply::WritesConverted => ValidationRequest::FinishValidation {
            tx_version,
            aborted: true,
        },
        ValidationReply::Finished(follow_up) => ValidationRequest::Done(follow_up),
    }
}

/// Decides how the validation of a transaction goes on, from the reply to what it
/// was waiting for. A transaction is aborted where it read what no longer holds
/// and no other worker aborts it first; only then are its writes marked.
pub fn try_validate(
    tx_version: TxVersion,
    request: ValidationRequest,
    reply: ValidationReply,
) -> (r: ValidationRequest)
    requires
        replies_to_validation(request, reply),
    ensures
        r == validation_next(tx_version, reply),
{
    match reply {
        ValidationReply::ReadSetValid(read_set_valid) => {
            if !read_set_valid {
                return ValidationRequest::TryValidationAbort(tx_version);
            }
            ValidationRequest::FinishValidation { tx_version, aborted: false }
        },
        ValidationReply::Aborted(aborted) => {
            if aborted {
                return ValidationRequest::ConvertWritesToEstimates(tx_version.tx_idx);
            }
            ValidationRequest::FinishValidation { tx_version, aborted: false }
        },
        ValidationReply::WritesConverted => {
            ValidationRequest::FinishValidation { tx_version, aborted: true }
        },
        ValidationReply::Finished(follow_up) => ValidationRequest::Done(follow_up),
    }
}

/// Where the execution of a block stands, and what it is waiting for. Every
/// stage but `Done` has an event, which is handed to
/// [`OpParallelExecutor::execute`].
#[derive(Debug, PartialEq, Eq)]
pub enum BlockStage {
    /// Nothing has been done.
    Start,
    /// So many workers have to execute so many transactions.
    Working { block_size: usize, workers: usize },
    /// The transactions have to be executed one after the other.
    Sequential,
    /// The next account that was updated lazily has to be named.
    Settling { results: Vec<TxExecutionResult> },
    /// An account has to be read from the storage.
    ReadingAccount { results: Vec<TxExecutionResult>, address: Address, history: WriteHistory },
    /// The code with the hash of `start` has to be read from the storage.
    ReadingCode {
        results: Vec<TxExecutionResult>,
        address: Address,
        history: WriteHistory,
        start: LazyAccount,
    },
    /// The block is done.
    Done(ParallelExecutorResult),
}

/// The model of a [`BlockStage`].
#[verifier::ext_equal]
pub enum StageView {
    Start,
    Working { block_size: usize, workers: usize },
    Sequential,
    Settling { results: Seq<TxResultView> },
    ReadingAccount { results: Seq<TxResultView>, address: Address, history: Map<TxIdx, Entry> },
    ReadingCode {
        results: Seq<TxResultView>,
        address: Address,
        history: Map<TxIdx, Entry>,
        start: LazyAccountView,
    },
    Done(Result<Seq<TxResultView>, ErrorView>),
}

impl View for BlockStage {
    type V = StageView;

    open spec fn view(&self) -> StageView {
        match *self {
            BlockStage::Start => StageView::Start,
            BlockStage::Working { block_size, workers } => StageView::Working {
                block_size,
                workers,
            },
            BlockStage::Sequential => StageView::Sequential,
            BlockStage::Settling { results } => StageView::Settling {
                results: crate::result::results_view(results@),
            },
            BlockStage::ReadingAccount { results, address, history } => StageView::ReadingAccount {
                results: crate::result::results_view(results@),
                address,
                history: history@,
            },
            BlockStage::ReadingCode { results, address, history, start } => StageView::ReadingCode {
                results: crate::result::results_view(results@),
                address,
                history: history@,
                start: start@,
            },
            BlockStage::Done(outcome) => StageView::Done(crate::result::outcome_view(outcome)),
        }
    }
}

/// What the execution of a block was waiting for.
#[derive(Debug, PartialEq, Eq)]
pub enum BlockEvent {
    /// The execution begins, with so many workers.
    Begin { concurrency_level: usize },
    /// All workers have stopped.
    WorkersJoined,
    /// What executing the transactions one after the other came to.
    ExecutedSequentially(ParallelExecutorResult),
    /// An account that was updated lazily and has not been named yet, with what
    /// the transactions wrote to it, if they wrote anything; or that there is no
    /// such account.
    LazyAddress(Option<(Address, Option<WriteHistory>)>),
    /// What the storage answered for the account.
    AccountRead(Result<Option<AccountInfo>, String>),
    /// What the storage answered for the code.
    CodeRead(Result<Bytecode, String>),
}

/// Whether the workers brought in a result for each transaction of a block.
pub open spec fn slots_filled(slots: Seq<Option<TxExecutionResult>>, block_size: nat) -> bool {
    block_size <= slots.len() && forall|i: int|
        0 <= i < block_size ==> (#[trigger] slots[i]) is Some
}

/// Whether an event is one that the stage waits for.
pub open spec fn event_fits(
    executor: ExecutorView,
    txs: Seq<TxEnv>,
    stage: StageView,
    event: BlockEvent,
) -> bool {
    match stage {
        StageView::Start => event matches BlockEvent::Begin { concurrency_level }
            && concurrency_level > 0,
        StageView::Working { .. } => event is WorkersJoined && (executor.abort_reason is None
            ==> slots_filled(executor.slots, txs.len())),
        StageView::Sequential => event is ExecutedSequentially,
        StageView::Settling { .. } => event is LazyAddress,
        StageView::ReadingAccount { .. } => event is AccountRead,
        StageView::ReadingCode { results, address, history, start } => match event {
            BlockEvent::CodeRead(Ok(_)) => results.len() == txs.len() && (Evaluation {
                address,
                history,
                start,
                txs,
            }).evaluable(),
            BlockEvent::CodeRead(Err(_)) => true,
            _ => false,
        },
        StageView::Done(_) => false,
    }
}

/// The results that the workers brought in for the first `block_size`
/// transactions.
pub open spec fn slot_results(
    slots: Seq<Option<TxExecutionResult>>,
    block_size: nat,
) -> Seq<TxResultView> {
    Seq::new(block_size, |i: int| slots[i]->Some_0@)
}

/// The stage that follows an event.
pub open spec fn stage_next(
    executor: ExecutorView,
    txs: Seq<TxEnv>,
    spec: SpecId,
    stage: StageView,
    event: BlockEvent,
) -> StageView {
    match (stage, event) {
        (StageView::Start, BlockEvent::Begin { concurrency_level }) => if txs.len() == 0 {
            StageView::Done(Ok(Seq::empty()))
        } else {
            StageView::Working { block_size: txs.len() as usize, workers: concurrency_level }
        },
        (StageView::Working { .. }, BlockEvent::WorkersJoined) => match executor.abort_reason {
            Some(AbortReason::FallbackToSequential) => StageView::Sequential,
            Some(AbortReason::ExecutionError(error)) => StageView::Done(
                Err(ErrorView::Execution(error@)),
            ),
            None => StageView::Settling {
                results: crate::gas::with_cumulative_gas(
                    slot_results(executor.slots, txs.len()),
                ),
            },
        },
        (StageView::Sequential, BlockEvent::ExecutedSequentially(outcome)) => StageView::Done(
            crate::result::outcome_view(outcome),
        ),
        (StageView::Settling { results }, BlockEvent::LazyAddress(None)) => StageView::Done(
            Ok(results),
        ),
        (StageView::Settling { results }, BlockEvent::LazyAddress(Some((address, None)))) =>
            StageView::Settling { results },
        (
            StageView::Settling { results },
            BlockEvent::LazyAddress(Some((address, Some(history)))),
        ) => if crate::mv_memory::begins_absolute(history@) {
            StageView::ReadingCode {
                results,
                address,
                history: history@,
                start: crate::lazy::absent_account(),
            }
        } else {
            StageView::ReadingAccount { results, address, history: history@ }
        },
        (
            StageView::ReadingAccount { results, address, history },
            BlockEvent::AccountRead(answer),
        ) => StageView::ReadingCode {
            results,
            address,
            history,
            start: crate::lazy::stored_account(answer),
        },
        (
            StageView::ReadingCode { results, address, history, start },
            BlockEvent::CodeRead(Ok(code)),
        ) => match (Evaluation { address, history, start, txs }).settle(results, code@, spec) {
            Ok(settled) => StageView::Settling { results: settled },
            Err(error) => StageView::Done(Err(error)),
        },
        (StageView::ReadingCode { .. }, BlockEvent::CodeRead(Err(words))) => StageView::Done(
            Err(ErrorView::Storage(words@)),
        ),
        _ => stage,
    }
}

/// What the executor keeps after an event. It has a slot for each transaction of
/// a block that begins, and once the workers have stopped it keeps neither the
/// reason for which they stopped nor the results that were taken.
pub open spec fn executor_next(
    executor: ExecutorView,
    txs: Seq<TxEnv>,
    stage: StageView,
    event: BlockEvent,
) -> ExecutorView {
    match (stage, event) {
        (StageView::Start, BlockEvent::Begin { .. }) => ExecutorView {
            slots: grown_slots(executor.slots, txs.len()),
            ..executor
        },
        (StageView::Working { .. }, BlockEvent::WorkersJoined) => ExecutorView {
            slots: if executor.abort_reason is None {
                emptied_slots(executor.slots, txs.len())
            } else {
                executor.slots
            },
            abort_reason: None,
            ..executor
        },
        _ => executor,
    }
}

/// The slots, with empty ones added so that there are at least `block_size`.
pub open spec fn grown_slots(
    slots: Seq<Option<TxExecutionResult>>,
    block_size: nat,
) -> Seq<Option<TxExecutionResult>> {
    if slots.len() < block_size {
        Seq::new(
            block_size,
            |i: int|
                if i < slots.len() {
                    slots[i]
                } else {
                    None
                },
        )
    } else {
        slots
    }
}

/// The slots, with the first `block_size` of them emptied.
pub open spec fn emptied_slots(
    slots: Seq<Option<TxExecutionResult>>,
    block_size: nat,
) -> Seq<Option<TxExecutionResult>> {
    Seq::new(
        slots.len(),
        |i: int|
            if i < block_size {
                None
            } else {
                slots[i]
            },
    )
}

impl OpParallelExecutor {
    /// Whether the workers brought in a result for each transaction of a block.
    pub fn is_complete(&self, block_size: usize) -> (r: bool)
        ensures
            r == slots_filled(self@.slots, block_size as nat),
    {
        if block_size > self.execution_results.len() {
            return false;
        }
        let mut i: usize = 0;
        while i < block_size
            invariant
                i <= block_size <= self.execution_results@.len(),
                forall|j: int| 0 <= j < i ==> (#[trigger] self.execution_results@[j]) is Some,
            decreases block_size - i,
        {
            if self.execution_results[i].is_none() {
                assert(self@.slots[i as int] is None);
                return false;
            }
            i = i + 1;
        }
        true
    }

    /// Adds slots so that there is one for each transaction of a block.
    fn add_slots(&mut self, block_size: usize)
        ensures
            final(self)@ == (ExecutorView {
                slots: grown_slots(old(self)@.slots, block_size as nat),
                ..old(self)@
            }),
    {
        let additional: usize = block_size.saturating_sub(self.execution_results.len());
        if additional > 0 {
            self.execution_results.reserve(additional);
            while self.execution_results.len() < block_size
                invariant
                    old(self)@.slots.len() <= self.execution_results@.len() <= block_size,
                    forall|i: int|
                        0 <= i < self.execution_results@.len() ==> self.execution_results@[i] == (
                        if i < old(self)@.slots.len() {
                            old(self)@.slots[i]
                        } else {
                            None
                        }),
                    self.abort_reason == old(self).abort_reason,
                    self.worker == old(self).worker,
                decreases block_size - self.execution_results@.len(),
            {
                self.execution_results.push(None);
            }
        }
        assert(self@.slots =~= grown_slots(old(self)@.slots, block_size as nat));
    }

    /// Takes the results of a block's transactions out of their slots, and counts
    /// up the gas in their receipts.
    fn take_results(&mut self, block_size: usize) -> (r: Vec<TxExecutionResult>)
        requires
            slots_filled(old(self)@.slots, block_size as nat),
        ensures
            final(self)@ == (ExecutorView {
                slots: emptied_slots(old(self)@.slots, block_size as nat),
                ..old(self)@
            }),
            crate::result::results_view(r@) == crate::gas::with_cumulative_gas(
                slot_results(old(self)@.slots, block_size as nat),
            ),
    {
        let ghost before = self@.slots;
        let ghost raw = slot_results(before, block_size as nat);
        let mut results: Vec<TxExecutionResult> = Vec::with_capacity(block_size);
        let mut used: u64 = 0;
        let mut i: usize = 0;
        while i < block_size
            invariant
                before == old(self)@.slots,
                raw == slot_results(before, block_size as nat),
                slots_filled(before, block_size as nat),
                i <= block_size,
                self.execution_results@.len() == before.len(),
                forall|j: int|
                    0 <= j < before.len() ==> self.execution_results@[j] == (if j < i {
                        None
                    } else {
                        before[j]
                    }),
                self.abort_reason == old(self).abort_reason,
                self.worker == old(self).worker,
                results@.len() == i,
                used == crate::gas::gas_count(crate::gas::gas_total(raw, i as nat)),
                forall|j: int|
                    0 <= j < i ==> (#[trigger] results@[j])@ == crate::gas::with_cumulative_gas(
                        raw,
                    )[j],
            decreases block_size - i,
        {
            assert(before[i as int] is Some);
            let slot = self.execution_results[i].take();
            let (result, total) = crate::gas::accumulate_gas(slot.unwrap(), used);
            used = total;
            results.push(result);
            i = i + 1;
        }
        assert(crate::result::results_view(results@) =~= crate::gas::with_cumulative_gas(raw));
        assert(self@.slots =~= emptied_slots(before, block_size as nat));
        results
    }

    /// Decides how the execution of a block goes on, from what it was waiting
    /// for.
    pub fn execute(
        &mut self,
        txs: &Vec<TxEnv>,
        spec: SpecId,
        stage: BlockStage,
        event: BlockEvent,
    ) -> (r: BlockStage)
        requires
            event_fits(old(self)@, txs@, stage@, event),
        ensures
            r@ == stage_next(old(self)@, txs@, spec, stage@, event),
            final(self)@ == executor_next(old(self)@, txs@, stage@, event),
    {
        match (stage, event) {
            (BlockStage::Start, BlockEvent::Begin { concurrency_level }) => {
                if txs.is_empty() {
                    let results: Vec<TxExecutionResult> = Vec::new();
                    assert(crate::result::results_view(results@) =~= Seq::empty());
                    return BlockStage::Done(Ok(results));
                }
                self.add_slots(txs.len());
                BlockStage::Working { block_size: txs.len(), workers: concurrency_level }
            },
            (BlockStage::Working { .. }, BlockEvent::WorkersJoined) => {
                match self.abort_reason.take() {
                    Some(AbortReason::FallbackToSequential) => BlockStage::Sequential,
                    Some(AbortReason::ExecutionError(error)) => BlockStage::Done(
                        Err(ParallelExecutorError::ExecutionError(error)),
                    ),
                    None => BlockStage::Settling { results: self.take_results(txs.len()) },
                }
            },
            (BlockStage::Sequential, BlockEvent::ExecutedSequentially(outcome)) => {
                BlockStage::Done(outcome)
            },
            (BlockStage::Settling { results }, BlockEvent::LazyAddress(None)) => {
                BlockStage::Done(Ok(results))
            },
            (BlockStage::Settling { results }, BlockEvent::LazyAddress(Some((address, None)))) => {
                BlockStage::Settling { results }
            },
            (
                BlockStage::Settling { results },
                BlockEvent::LazyAddress(Some((address, Some(history)))),
            ) => {
                if crate::mv_memory::starts_with_absolute(&history) {
                    BlockStage::ReadingCode {
                        results,
                        address,
                        history,
                        start: LazyAccount::absent(),
                    }
                } else {
                    BlockStage::ReadingAccount { results, address, history }
                }
            },
            (
                BlockStage::ReadingAccount { results, address, history },
                BlockEvent::AccountRead(answer),
            ) => {
                BlockStage::ReadingCode {
                    results,
                    address,
                    history,
                    start: LazyAccount::from_storage(answer),
                }
            },
            (
                BlockStage::ReadingCode { results, address, history, start },
                BlockEvent::CodeRead(Ok(code)),
            ) => {
                match crate::lazy::settle_account(
                    results,
                    txs,
                    spec,
                    address,
                    &history,
                    start,
                    &code,
                ) {
                    Ok(settled) => BlockStage::Settling { results: settled },
                    Err(error) => BlockStage::Done(Err(error)),
                }
            },
            (BlockStage::ReadingCode { .. }, BlockEvent::CodeRead(Err(words))) => {
                BlockStage::Done(Err(ParallelExecutorError::StorageError(words)))
            },
            (stage, _) => stage,
        }
    }
}

} // verus!
