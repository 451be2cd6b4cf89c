//! What a worker, an execution and a validation ask for after each reply.

use crate::op_executor::{
    ExecutionReply, ExecutionRequest, ExecutorView, ValidationReply, ValidationRequest,
};
use crate::result::{AbortReason, VmExecutionError};
use crate::scheduler::{Task, TxVersion, WorkerReply, WorkerRequest};
use vstd::prelude::*;

verus! {

/// A worker waits for the scheduler's answer where it asked for a task, for the end
/// of a task where it runs one, and for nothing once it stops.
pub proof fn law_worker_waits(request: WorkerRequest, reply: WorkerReply)
    ensures
        crate::scheduler::replies_to_worker(request, reply) <==> {
            ||| request is NextTask && reply is Scheduled
            ||| request is Run && reply is Ran
        },
{
}

/// Every task that a worker is handed is the next thing that it runs, be it an
/// execution or a validation, of any transaction and any incarnation: the task from
/// the scheduler, and the one that follows from a task, unless the block has been
/// aborted.
pub proof fn law_worker_runs_every_task(task: Task)
    ensures
        crate::scheduler::worker_next(WorkerReply::Scheduled(Some(task))) == WorkerRequest::Run(
            task,
        ),
        crate::scheduler::worker_next(
            WorkerReply::Ran { follow_up: Some(task), aborted: false },
        ) == WorkerRequest::Run(task),
{
}

/// A worker asks the scheduler for a task after a task from which none follows, and
/// only then.
pub proof fn law_worker_asks_again(reply: WorkerReply)
    ensures
        crate::scheduler::worker_next(reply) is NextTask <==> reply == (WorkerReply::Ran {
            follow_up: None,
            aborted: false,
        }),
{
}

/// Once the block has been aborted a worker stops, whatever follows from its task.
pub proof fn law_worker_stops_on_abort(follow_up: Option<Task>)
    ensures
        crate::scheduler::worker_next(WorkerReply::Ran { follow_up, aborted: true })
            == WorkerRequest::Stop,
        crate::scheduler::worker_next(WorkerReply::Scheduled(None)) == WorkerRequest::Stop,
{
}

/// The requests of a worker that gets these replies: it begins with a task from the
/// scheduler.
pub open spec fn worker_requests(replies: Seq<WorkerReply>) -> Seq<WorkerRequest> {
    Seq::new(
        replies.len() + 1,
        |k: int|
            if k == 0 {
                WorkerRequest::NextTask
            } else {
                crate::scheduler::worker_next(replies[k - 1])
            },
    )
}

/// A worker runs every task that it is handed, each right after it was handed it,
/// and nothing else; and it asks for a task where none follows from the last one.
pub proof fn law_worker_run(replies: Seq<WorkerReply>, k: int, task: Task)
    requires
        0 <= k < replies.len(),
        forall|j: int|
            0 <= j < replies.len() ==> crate::scheduler::replies_to_worker(
                #[trigger] worker_requests(replies)[j],
                replies[j],
            ),
    ensures
        worker_requests(replies)[k + 1] == WorkerRequest::Run(task) <==> {
            ||| replies[k] == WorkerReply::Scheduled(Some(task))
            ||| replies[k] == (WorkerReply::Ran { follow_up: Some(task), aborted: false })
        },
        worker_requests(replies)[k + 1] is NextTask <==> replies[k] == (WorkerReply::Ran {
            follow_up: None,
            aborted: false,
        }),
{
    assert(worker_requests(replies)[k + 1] == crate::scheduler::worker_next(replies[k]));
}

/// An execution waits for the reply to its request: for what executing comes to, a
/// result only of a transaction that has a slot; for the dependency, the abort, or
/// the scheduler's follow-up.
pub proof fn law_execution_waits(
    executor: ExecutorView,
    tx_version: TxVersion,
    request: ExecutionRequest,
    reply: ExecutionReply,
)
    ensures
        crate::op_executor::replies_to_execution(executor, tx_version, request, reply) <==> {
            ||| request is Execute && reply is Executed && (reply->Executed_0 is Ok
                ==> tx_version.tx_idx < executor.slots.len())
            ||| request is AddDependency && reply is DependencyAdded
            ||| request is AbortScheduler && reply is SchedulerAborted
            ||| request is FinishExecution && reply is Finished
        },
{
}

/// The scheduler is told of an execution where it came to a result and only there,
/// for every version of a transaction, whatever its incarnation: of exactly that
/// version, with exactly its flags.
pub proof fn law_execution_finishes(
    executor: ExecutorView,
    tx_version: TxVersion,
    reply: ExecutionReply,
)
    ensures
        reply matches ExecutionReply::Executed(Ok(executed))
            ==> crate::op_executor::execution_next(executor, tx_version, reply) == (
        ExecutionRequest::FinishExecution { tx_version, flags: executed.flags }),
        crate::op_executor::execution_next(executor, tx_version, reply) is FinishExecution
            ==> reply is Executed && reply->Executed_0 is Ok,
{
}

/// A transaction waits for another where its execution was blocked by that other
/// one, and only there.
pub proof fn law_execution_waits_for_blocking(
    executor: ExecutorView,
    tx_version: TxVersion,
    reply: ExecutionReply,
)
    ensures
        reply matches ExecutionReply::Executed(Err(VmExecutionError::Blocking(blocking_tx_idx)))
            ==> crate::op_executor::execution_next(executor, tx_version, reply) == (
        ExecutionRequest::AddDependency { tx_idx: tx_version.tx_idx, blocking_tx_idx }),
        crate::op_executor::execution_next(executor, tx_version, reply) is AddDependency ==> (
        reply matches ExecutionReply::Executed(Err(VmExecutionError::Blocking(_)))),
{
}

/// The block is aborted where an execution failed, with the error of that
/// execution, and where it asks for sequential execution; and only there.
pub proof fn law_execution_aborts(
    executor: ExecutorView,
    tx_version: TxVersion,
    reply: ExecutionReply,
)
    ensures
        reply matches ExecutionReply::Executed(Err(VmExecutionError::ExecutionError(error)))
            ==> crate::op_executor::execution_next(executor, tx_version, reply)
            == ExecutionRequest::AbortScheduler(AbortReason::ExecutionError(error)),
        reply == ExecutionReply::Executed(Err(VmExecutionError::FallbackToSequential))
            ==> crate::op_executor::execution_next(executor, tx_version, reply)
            == ExecutionRequest::AbortScheduler(AbortReason::FallbackToSequential),
        crate::op_executor::execution_next(executor, tx_version, reply) is AbortScheduler ==> {
            ||| reply == ExecutionReply::Executed(Err(VmExecutionError::FallbackToSequential))
            ||| reply matches ExecutionReply::Executed(Err(VmExecutionError::ExecutionError(_)))
        },
{
}

/// The same version is executed again at once where the execution has to be retried
/// or the dependency came too late, unless the block has been aborted; and only
/// there.
pub proof fn law_execution_retries(
    executor: ExecutorView,
    tx_version: TxVersion,
    reply: ExecutionReply,
)
    ensures
        crate::op_executor::execution_next(executor, tx_version, reply)
            == ExecutionRequest::Execute(tx_version) <==> executor.abort_reason is None && (reply
            == ExecutionReply::Executed(Err(VmExecutionError::Retry)) || reply
            == ExecutionReply::DependencyAdded(false)),
        crate::op_executor::execution_next(executor, tx_version, reply) is Execute
            ==> crate::op_executor::execution_next(executor, tx_version, reply)
            == ExecutionRequest::Execute(tx_version),
{
}

/// An execution is done with the follow-up that the scheduler has for it; and
/// without one where the transaction waits for another, where the scheduler was
/// aborted, and where it would have to be executed again in an aborted block.
pub proof fn law_execution_is_done(
    executor: ExecutorView,
    tx_version: TxVersion,
    reply: ExecutionReply,
)
    ensures
        reply matches ExecutionReply::Finished(follow_up)
            ==> crate::op_executor::execution_next(executor, tx_version, reply)
            == ExecutionRequest::Done(follow_up),
        !(reply is Finished) ==> (crate::op_executor::execution_next(executor, tx_version, reply)
            == ExecutionRequest::Done(None) <==> {
            ||| reply == ExecutionReply::DependencyAdded(true)
            ||| reply is SchedulerAborted
            ||| executor.abort_reason is Some && (reply == ExecutionReply::Executed(
                Err(VmExecutionError::Retry),
            ) || reply == ExecutionReply::DependencyAdded(false))
        }),
        !(reply is Finished) && crate::op_executor::execution_next(
            executor,
            tx_version,
            reply,
        ) is Done ==> crate::op_executor::execution_next(executor, tx_version, reply)
            == ExecutionRequest::Done(None),
{
}

/// The requests of an execution that gets these replies, each of them from an
/// executor on which other executions may have gone on in the meantime.
pub open spec fn execution_requests(
    tx_version: TxVersion,
    executors: Seq<ExecutorView>,
    replies: Seq<ExecutionReply>,
) -> Seq<ExecutionRequest> {
    Seq::new(
        replies.len() + 1,
        |k: int|
            if k == 0 {
                ExecutionRequest::Execute(tx_version)
            } else {
                crate::op_executor::execution_next(executors[k - 1], tx_version, replies[k - 1])
            },
    )
}

/// An execution that is done with its last request has told the scheduler of its
/// version once, right before, if it came to a result; and was then done with what
/// the scheduler had to follow. Otherwise it has not told the scheduler, and nothing
/// follows from it.
pub proof fn law_execution_run(
    tx_version: TxVersion,
    executors: Seq<ExecutorView>,
    replies: Seq<ExecutionReply>,
    follow_up: Option<Task>,
)
    requires
        replies.len() > 0,
        executors.len() == replies.len(),
        forall|j: int|
            0 <= j < replies.len() ==> crate::op_executor::replies_to_execution(
                executors[j],
                tx_version,
                #[trigger] execution_requests(tx_version, executors, replies)[j],
                replies[j],
            ),
        execution_requests(tx_version, executors, replies).last() == ExecutionRequest::Done(
            follow_up,
        ),
    ensures
        forall|k: int|
            0 <= k < replies.len() - 1 ==> (#[trigger] execution_requests(
                tx_version,
                executors,
                replies,
            )[k]) !is FinishExecution,
        forall|k: int|
            0 <= k < replies.len() ==> (#[trigger] execution_requests(
                tx_version,
                executors,
                replies,
            )[k]) !is Done,
        forall|k: int|
            0 <= k < replies.len() && (#[trigger] replies[k] matches ExecutionReply::Executed(
                Ok(executed),
            )) ==> {
                &&& k == replies.len() - 2
                &&& execution_requests(tx_version, executors, replies)[k + 1] == (
                ExecutionRequest::FinishExecution {
                    tx_version,
                    flags: replies[k]->Executed_0->Ok_0.flags,
                })
                &&& replies[k + 1] == ExecutionReply::Finished(follow_up)
            },
        !(replies.last() is Finished) ==> follow_up is None,
{
    let requests = execution_requests(tx_version, executors, replies);
    let last = replies.len() - 1;
    assert(requests[last + 1] == ExecutionRequest::Done(follow_up));
    assert forall|k: int| 0 <= k < replies.len() implies (#[trigger] requests[k]) !is Done by {
        assert(crate::op_executor::replies_to_execution(
            executors[k],
            tx_version,
            requests[k],
            replies[k],
        ));
    }
    assert forall|k: int| 0 <= k < replies.len() - 1 implies (
    #[trigger] requests[k]) !is FinishExecution by {
        assert(crate::op_executor::replies_to_execution(
            executors[k],
            tx_version,
            requests[k],
            replies[k],
        ));
        assert(requests[k + 1] !is Done);
    }
    assert forall|k: int|
        0 <= k < replies.len() && (#[trigger] replies[k] matches ExecutionReply::Executed(
            Ok(executed),
        )) implies {
        &&& k == replies.len() - 2
        &&& requests[k + 1] == (ExecutionRequest::FinishExecution {
            tx_version,
            flags: replies[k]->Executed_0->Ok_0.flags,
        })
        &&& replies[k + 1] == ExecutionReply::Finished(follow_up)
    } by {
        law_execution_finishes(executors[k], tx_version, replies[k]);
        assert(requests[k + 1] is FinishExecution);
        assert(crate::op_executor::replies_to_execution(
            executors[k + 1],
            tx_version,
            requests[k + 1],
            replies[k + 1],
        ));
    }
    law_execution_is_done(executors[last], tx_version, replies[last]);
}

/// What the executor keeps of a reply: a result in the slot of its transaction, and
/// the first reason for which the block is aborted. All else stays as it is.
pub proof fn law_executor_keeps_reply(
    executor: ExecutorView,
    tx_version: TxVersion,
    request: ExecutionRequest,
    reply: ExecutionReply,
)
    requires
        crate::op_executor::replies_to_execution(executor, tx_version, request, reply),
    ensures
        ({
            let after = crate::op_executor::execution_effect(
                executor,
                tx_version,
                request,
                reply,
            );
            &&& after.worker == executor.worker
            &&& after.slots.len() == executor.slots.len()
            &&& forall|i: int|
                0 <= i < executor.slots.len() && (i != tx_version.tx_idx || !(reply is Executed)
                    || reply->Executed_0 is Err) ==> #[trigger] after.slots[i]
                    == executor.slots[i]
            &&& reply matches ExecutionReply::Executed(Ok(executed))
                ==> after.slots[tx_version.tx_idx as int] == Some(executed.execution_result)
            &&& request matches ExecutionRequest::AbortScheduler(reason) ==> (
            executor.abort_reason is None ==> after.abort_reason == Some(reason))
            &&& (!(request is AbortScheduler) || executor.abort_reason is Some)
                ==> after.abort_reason == executor.abort_reason
        }),
{
}

/// A validation waits for the reply to its request.
pub proof fn law_validation_waits(request: ValidationRequest, reply: ValidationReply)
    ensures
        crate::op_executor::replies_to_validation(request, reply) <==> {
            ||| request is ValidateReadLocations && reply is ReadSetValid
            ||| request is TryValidationAbort && reply is Aborted
            ||| request is ConvertWritesToEstimates && reply is WritesConverted
            ||| request is FinishValidation && reply is Finished
        },
{
}

/// A validation asks for an abort of its version where the reads do not hold, marks
/// the writes of its transaction where it was granted, and is done with the
/// scheduler's follow-up: each there and nowhere else. In all other cases it tells
/// the scheduler of its version, as aborted where the writes were marked.
pub proof fn law_validation_goes_on(tx_version: TxVersion, reply: ValidationReply)
    ensures
        crate::op_executor::validation_next(tx_version, reply)
            == ValidationRequest::TryValidationAbort(tx_version) <==> reply
            == ValidationReply::ReadSetValid(false),
        crate::op_executor::validation_next(tx_version, reply)
            == ValidationRequest::ConvertWritesToEstimates(tx_version.tx_idx) <==> reply
            == ValidationReply::Aborted(true),
        crate::op_executor::validation_next(tx_version, reply) == (
        ValidationRequest::FinishValidation { tx_version, aborted: true }) <==> reply is
            WritesConverted,
        crate::op_executor::validation_next(tx_version, reply) == (
        ValidationRequest::FinishValidation { tx_version, aborted: false }) <==> reply
            == ValidationReply::ReadSetValid(true) || reply == ValidationReply::Aborted(false),
        reply matches ValidationReply::Finished(follow_up)
            ==> crate::op_executor::validation_next(tx_version, reply) == ValidationRequest::Done(
            follow_up,
        ),
{
}

} // verus!
