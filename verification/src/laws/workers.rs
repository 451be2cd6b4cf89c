//! What holds of validations and executions from their first request to their
//! last, in whatever order the workers get on.

use crate::op_executor::{
    ExecutionReply, ExecutionRequest, ExecutorView, ValidationReply, ValidationRequest,
};
use crate::result::{AbortReason, TxExecutionResult, TxResultView};
use crate::scheduler::{Task, TxVersion, WorkerReply, WorkerRequest};
use vstd::prelude::*;

verus! {

/// The reply that a validation gets where the read check, the abort and the
/// scheduler answer as given.
pub open spec fn validation_answer(
    request: ValidationRequest,
    read_set_valid: bool,
    abort_granted: bool,
    follow_up: Option<Task>,
) -> ValidationReply {
    match request {
        ValidationRequest::ValidateReadLocations(_) => ValidationReply::ReadSetValid(
            read_set_valid,
        ),
        ValidationRequest::TryValidationAbort(_) => ValidationReply::Aborted(abort_granted),
        ValidationRequest::ConvertWritesToEstimates(_) => ValidationReply::WritesConverted,
        _ => ValidationReply::Finished(follow_up),
    }
}

/// How many requests can follow this one in a validation.
pub open spec fn validation_rank(request: ValidationRequest) -> nat {
    match request {
        ValidationRequest::ValidateReadLocations(_) => 4,
        ValidationRequest::TryValidationAbort(_) => 3,
        ValidationRequest::ConvertWritesToEstimates(_) => 2,
        ValidationRequest::FinishValidation { .. } => 1,
        ValidationRequest::Done(_) => 0,
    }
}

/// All requests of a validation from this one on.
pub open spec fn validation_run(
    tx_version: TxVersion,
    request: ValidationRequest,
    read_set_valid: bool,
    abort_granted: bool,
    follow_up: Option<Task>,
) -> Seq<ValidationRequest>
    decreases validation_rank(request),
{
    if request is Done {
        seq![request]
    } else {
        let reply = validation_answer(request, read_set_valid, abort_granted, follow_up);
        seq![request] + validation_run(
            tx_version,
            crate::op_executor::validation_next(tx_version, reply),
            read_set_valid,
            abort_granted,
            follow_up,
        )
    }
}

/// A validation checks the reads first. It asks for an abort only where they do
/// not hold, marks the writes only where the abort is granted, and in the end
/// tells the scheduler exactly once, and truly, whether the transaction was
/// aborted.
pub proof fn law_validation_run(
    tx_version: TxVersion,
    read_set_valid: bool,
    abort_granted: bool,
    follow_up: Option<Task>,
)
    ensures
        validation_run(
            tx_version,
            ValidationRequest::ValidateReadLocations(tx_version.tx_idx),
            read_set_valid,
            abort_granted,
            follow_up,
        ) == seq![ValidationRequest::ValidateReadLocations(tx_version.tx_idx)] + (
        if read_set_valid {
            Seq::empty()
        } else {
            seq![ValidationRequest::TryValidationAbort(tx_version)]
        }) + (if !read_set_valid && abort_granted {
            seq![ValidationRequest::ConvertWritesToEstimates(tx_version.tx_idx)]
        } else {
            Seq::empty()
        }) + seq![
            ValidationRequest::FinishValidation {
                tx_version,
                aborted: !read_set_valid && abort_granted,
            },
            ValidationRequest::Done(follow_up),
        ],
{
    reveal_with_fuel(validation_run, 5);
}

/// What the executor has of one worker's reply.
pub struct ExecutionStep {
    pub tx_version: TxVersion,
    pub request: ExecutionRequest,
    pub reply: ExecutionReply,
}

/// The executor after the replies of any number of executions, in the order in
/// which they came in.
pub open spec fn after_executions(executor: ExecutorView, steps: Seq<ExecutionStep>) -> ExecutorView
    decreases steps.len(),
{
    if steps.len() == 0 {
        executor
    } else {
        let step = steps.last();
        crate::op_executor::execution_effect(
            after_executions(executor, steps.drop_last()),
            step.tx_version,
            step.request,
            step.reply,
        )
    }
}

/// Whether every transaction that is executed has a slot.
pub open spec fn steps_have_slots(executor: ExecutorView, steps: Seq<ExecutionStep>) -> bool {
    forall|i: int|
        0 <= i < steps.len() ==> (#[trigger] steps[i]).tx_version.tx_idx < executor.slots.len()
}

/// Whether a step tells the executor that the block is aborted for a reason.
pub open spec fn aborts_for(step: ExecutionStep, reason: AbortReason) -> bool {
    step.request == ExecutionRequest::AbortScheduler(reason) && step.reply is SchedulerAborted
}

/// Whether a step aborts the block.
pub open spec fn is_abort(step: ExecutionStep) -> bool {
    step.request is AbortScheduler && step.reply is SchedulerAborted
}

/// Whether a step brings in a result of a transaction's execution.
pub open spec fn has_result(step: ExecutionStep, tx_idx: int) -> bool {
    step.tx_version.tx_idx == tx_idx && (step.reply matches ExecutionReply::Executed(Ok(_)))
}

/// Whether a step brings in this result of a transaction's execution.
pub open spec fn brings_in(step: ExecutionStep, tx_idx: int, result: TxExecutionResult) -> bool {
    &&& step.tx_version.tx_idx == tx_idx
    &&& step.reply matches ExecutionReply::Executed(Ok(executed))
    &&& executed.execution_result == result
}

/// The reason for which a block is aborted is that of the first abort, and no
/// later one changes it: of all executions, in whatever order their replies come
/// in.
pub proof fn law_first_abort_stands(
    executor: ExecutorView,
    steps: Seq<ExecutionStep>,
    first: int,
    reason: AbortReason,
)
    requires
        executor.abort_reason is None,
        0 <= first < steps.len(),
        aborts_for(steps[first], reason),
        forall|i: int| 0 <= i < first ==> !is_abort(#[trigger] steps[i]),
    ensures
        after_executions(executor, steps).abort_reason == Some(reason),
    decreases steps.len(),
{
    if first < steps.len() - 1 {
        law_first_abort_stands(executor, steps.drop_last(), first, reason);
    } else {
        law_no_abort_without_reason(executor, steps.drop_last());
    }
}

/// A block in which no execution aborts is not aborted.
pub proof fn law_no_abort_without_reason(executor: ExecutorView, steps: Seq<ExecutionStep>)
    requires
        executor.abort_reason is None,
        forall|i: int| 0 <= i < steps.len() ==> !is_abort(#[trigger] steps[i]),
    ensures
        after_executions(executor, steps).abort_reason is None,
    decreases steps.len(),
{
    if steps.len() > 0 {
        assert forall|i: int| 0 <= i < steps.drop_last().len() implies !is_abort(
            #[trigger] steps.drop_last()[i],
        ) by {
            assert(steps.drop_last()[i] == steps[i]);
        }
        law_no_abort_without_reason(executor, steps.drop_last());
        assert(!is_abort(steps[steps.len() - 1]));
    }
}

/// The slot of a transaction holds the result of its last execution that came to
/// one, whatever the executions of other transactions come to.
pub proof fn law_last_execution_stands(
    executor: ExecutorView,
    steps: Seq<ExecutionStep>,
    last: int,
    tx_idx: int,
    result: TxExecutionResult,
)
    requires
        steps_have_slots(executor, steps),
        0 <= last < steps.len(),
        brings_in(steps[last], tx_idx, result),
        forall|i: int| last < i < steps.len() ==> !has_result(#[trigger] steps[i], tx_idx),
    ensures
        after_executions(executor, steps).slots.len() == executor.slots.len(),
        after_executions(executor, steps).slots[tx_idx] == Some(result),
    decreases steps.len(),
{
    assert(steps[last].tx_version.tx_idx < executor.slots.len());
    assert(steps[steps.len() - 1].tx_version.tx_idx < executor.slots.len());
    law_executions_keep_slots(executor, steps.drop_last());
    if last < steps.len() - 1 {
        law_last_execution_stands(executor, steps.drop_last(), last, tx_idx, result);
        assert(!has_result(steps[steps.len() - 1], tx_idx));
    }
}

/// Executions neither add slots nor take them away.
pub proof fn law_executions_keep_slots(executor: ExecutorView, steps: Seq<ExecutionStep>)
    requires
        steps_have_slots(executor, steps),
    ensures
        after_executions(executor, steps).slots.len() == executor.slots.len(),
    decreases steps.len(),
{
    if steps.len() > 0 {
        law_executions_keep_slots(executor, steps.drop_last());
        assert(steps[steps.len() - 1].tx_version.tx_idx < executor.slots.len());
    }
}

/// The result of a transaction's last execution that came to one, if any did.
pub open spec fn last_result(steps: Seq<ExecutionStep>, tx_idx: int) -> Option<TxResultView>
    decreases steps.len(),
{
    if steps.len() == 0 {
        None
    } else {
        match steps.last().reply {
            ExecutionReply::Executed(Ok(executed)) if steps.last().tx_version.tx_idx
                == tx_idx => Some(executed.execution_result@),
            _ => last_result(steps.drop_last(), tx_idx),
        }
    }
}

/// The reason of the first execution that aborts the block, if any does.
pub open spec fn first_abort(steps: Seq<ExecutionStep>) -> Option<AbortReason>
    decreases steps.len(),
{
    if steps.len() == 0 {
        None
    } else {
        match (first_abort(steps.drop_last()), steps.last().request, steps.last().reply) {
            (Some(reason), _, _) => Some(reason),
            (
                None,
                ExecutionRequest::AbortScheduler(reason),
                ExecutionReply::SchedulerAborted,
            ) => Some(reason),
            _ => None,
        }
    }
}

/// The executor knows the reason of the first abort, and no other.
pub proof fn law_abort_reason_is_the_first(executor: ExecutorView, steps: Seq<ExecutionStep>)
    requires
        executor.abort_reason is None,
    ensures
        after_executions(executor, steps).abort_reason == first_abort(steps),
    decreases steps.len(),
{
    if steps.len() > 0 {
        law_abort_reason_is_the_first(executor, steps.drop_last());
    }
}

/// A slot holds the last result of its transaction. Only the slot of a transaction
/// that comes to none holds what it held before.
pub proof fn law_slot_holds_last_result(
    executor: ExecutorView,
    steps: Seq<ExecutionStep>,
    tx_idx: int,
)
    requires
        steps_have_slots(executor, steps),
        0 <= tx_idx < executor.slots.len(),
    ensures
        match last_result(steps, tx_idx) {
            Some(result) => {
                &&& after_executions(executor, steps).slots[tx_idx] matches Some(held)
                &&& held@ == result
            },
            None => after_executions(executor, steps).slots[tx_idx] == executor.slots[tx_idx],
        },
    decreases steps.len(),
{
    if steps.len() > 0 {
        let rest = steps.drop_last();
        assert forall|i: int| 0 <= i < rest.len() implies (
        #[trigger] rest[i]).tx_version.tx_idx < executor.slots.len() by {
            assert(rest[i] == steps[i]);
        }
        assert(steps[steps.len() - 1].tx_version.tx_idx < executor.slots.len());
        law_slot_holds_last_result(executor, rest, tx_idx);
        law_executions_keep_slots(executor, rest);
    }
}

/// Whether two blocks were aborted for the same reason, or neither was aborted.
pub open spec fn same_abort(left: Option<AbortReason>, right: Option<AbortReason>) -> bool {
    match (left, right) {
        (None, None) => true,
        (
            Some(AbortReason::FallbackToSequential),
            Some(AbortReason::FallbackToSequential),
        ) => true,
        (
            Some(AbortReason::ExecutionError(one)),
            Some(AbortReason::ExecutionError(other)),
        ) => one@ == other@,
        _ => false,
    }
}

/// Whether two courses of a block's executions come to the same, in whatever order
/// their replies came in: they abort the block for the same reason; or neither
/// aborts it, and both leave the same last result for every transaction.
pub open spec fn come_to_the_same(
    steps: Seq<ExecutionStep>,
    others: Seq<ExecutionStep>,
    block_size: nat,
) -> bool {
    &&& same_abort(first_abort(steps), first_abort(others))
    &&& first_abort(steps) is None ==> forall|i: int|
        0 <= i < block_size ==> (#[trigger] last_result(steps, i)) is Some && last_result(steps, i)
            == last_result(others, i)
}

/// Once the block has been aborted, no reply makes a transaction execute again.
pub proof fn law_no_execution_after_abort(
    executor: ExecutorView,
    tx_version: TxVersion,
    reply: ExecutionReply,
)
    requires
        executor.abort_reason is Some,
    ensures
        !(crate::op_executor::execution_next(executor, tx_version, reply) is Execute),
{
}

/// A worker runs only what it was given: the scheduler's tasks, and those that
/// follow from a task it ran. It runs none once it has learnt that the block was
/// aborted.
pub proof fn law_worker_runs_what_it_is_given(reply: WorkerReply, given: Task)
    requires
        crate::scheduler::worker_next(reply) == WorkerRequest::Run(given),
    ensures
        reply == WorkerReply::Scheduled(Some(given)) || reply == (WorkerReply::Ran {
            follow_up: Some(given),
            aborted: false,
        }),
{
}

/// A worker stops where the scheduler has no task for it or the block was
/// aborted, and only there.
pub proof fn law_worker_stops(reply: WorkerReply)
    ensures
        crate::scheduler::worker_next(reply) is Stop <==> (reply == WorkerReply::Scheduled(None)
            || (reply matches WorkerReply::Ran { aborted, .. } && aborted)),
{
}

} // verus!
