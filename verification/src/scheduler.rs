//! The tasks that workers take from the scheduler, and what a worker does next.

use crate::primitives::TxIdx;
use vstd::prelude::*;

verus! {

/// One incarnation of a transaction.
#[derive(Clone, Copy, Debug, PartialEq, Eq, Structural)]
pub struct TxVersion {
    pub tx_idx: TxIdx,
    pub tx_incarnation: usize,
}

/// A piece of work.
#[derive(Clone, Copy, Debug, PartialEq, Eq, Structural)]
pub enum Task {
    /// Execute a transaction.
    Execution(TxVersion),
    /// Check that what an execution read still holds.
    Validation(TxVersion),
}

/// What a worker is to do. Every request but `Stop` has a reply, which is handed
/// to [`next_request`].
#[derive(Clone, Copy, Debug, PartialEq, Eq, Structural)]
pub enum WorkerRequest {
    /// Ask the scheduler for a task.
    NextTask,
    /// Carry out a task.
    Run(Task),
    /// Stop working on the block.
    Stop,
}

/// The reply to a [`WorkerRequest`].
#[derive(Clone, Copy, Debug, PartialEq, Eq, Structural)]
pub enum WorkerReply {
    /// The task that the scheduler had, if it had one.
    Scheduled(Option<Task>),
    /// The task is done: the task that follows from it, if one does, and
    /// whether the block has been aborted by now.
    Ran { follow_up: Option<Task>, aborted: bool },
}

/// Whether a reply is one to the request.
pub open spec fn replies_to_worker(request: WorkerRequest, reply: WorkerReply) -> bool {
    match request {
        WorkerRequest::NextTask => reply is Scheduled,
        WorkerRequest::Run(_) => reply is Ran,
        WorkerRequest::Stop => false,
    }
}

/// What a worker does after a reply.
pub open spec fn worker_next(reply: WorkerReply) -> WorkerRequest {
    match reply {
        WorkerReply::Scheduled(Some(task)) => WorkerRequest::Run(task),
        WorkerReply::Scheduled(None) => WorkerRequest::Stop,
        WorkerReply::Ran { follow_up, aborted } => if aborted {
            WorkerRequest::Stop
        } else {
            match follow_up {
                Some(task) => WorkerRequest::Run(task),
                None => WorkerRequest::NextTask,
            }
        },
    }
}

/// What a worker does next. Without a task from the scheduler, or once the block
/// has been aborted, it stops; a task that follows from the last one goes before
/// the scheduler's.
pub fn next_request(request: WorkerRequest, reply: WorkerReply) -> (r: WorkerRequest)
    requires
        replies_to_worker(request, reply),
    ensures
        r == worker_next(reply),
        reply matches WorkerReply::Scheduled(Some(task)) ==> r == WorkerRequest::Run(task),
        reply == WorkerReply::Scheduled(None) ==> r is Stop,
        reply matches WorkerReply::Ran { follow_up, aborted } ==> {
            &&& aborted ==> r is Stop
            &&& !aborted && follow_up is None ==> r is NextTask
            &&& !aborted && follow_up is Some ==> r == WorkerRequest::Run(follow_up->Some_0)
        },
{
    match reply {
        WorkerReply::Scheduled(Some(task)) => WorkerRequest::Run(task),
        WorkerReply::Scheduled(None) => WorkerRequest::Stop,
        WorkerReply::Ran { follow_up, aborted } => {
            if aborted {
                return WorkerRequest::Stop;
            }
            match follow_up {
                Some(task) => WorkerRequest::Run(task),
                None => WorkerRequest::NextTask,
            }
        },
    }
}

} // verus!
