//! Execution of a block one transaction after the other, for (small) blocks with
//! many dependencies.

use crate::result::{
    ErrorView, ExecutionError, ParallelExecutorError, ParallelExecutorResult, TxExecutionResult,
    TxResultView,
};
use crate::transaction::{TxEnv, TxType};
use vstd::prelude::*;

verus! {

/// Where the sequential execution of a block stands, and what it is waiting for.
/// Every stage but `Done` has an event, which is handed to
/// [`op_execute_sequential`].
#[derive(Debug, PartialEq, Eq)]
pub enum SequentialStage {
    /// Nothing has been done.
    Start,
    /// A transaction has to be executed on top of those before it.
    Transacting {
        results: Vec<TxExecutionResult>,
        tx_idx: usize,
        tx_type: TxType,
        cumulative_gas_used: u64,
    },
    /// What the transaction of the last result changed has to be committed, for
    /// those after it to see.
    Committing { results: Vec<TxExecutionResult>, cumulative_gas_used: u64 },
    /// The block is done.
    Done(ParallelExecutorResult),
}

/// The model of a [`SequentialStage`].
#[verifier::ext_equal]
pub enum SequentialStageView {
    Start,
    Transacting {
        results: Seq<TxResultView>,
        tx_idx: usize,
        tx_type: TxType,
        cumulative_gas_used: u64,
    },
    Committing { results: Seq<TxResultView>, cumulative_gas_used: u64 },
    Done(Result<Seq<TxResultView>, ErrorView>),
}

impl View for SequentialStage {
    type V = SequentialStageView;

    open spec fn view(&self) -> SequentialStageView {
        match *self {
            SequentialStage::Start => SequentialStageView::Start,
            SequentialStage::Transacting { results, tx_idx, tx_type, cumulative_gas_used } =>
                SequentialStageView::Transacting {
                    results: crate::result::results_view(results@),
                    tx_idx,
                    tx_type,
                    cumulative_gas_used,
                },
            SequentialStage::Committing { results, cumulative_gas_used } =>
                SequentialStageView::Committing {
                    results: crate::result::results_view(results@),
                    cumulative_gas_used,
                },
            SequentialStage::Done(outcome) => SequentialStageView::Done(
                crate::result::outcome_view(outcome),
            ),
        }
    }
}

/// What the sequential execution of a block was waiting for.
#[derive(Debug, PartialEq, Eq)]
pub enum SequentialEvent {
    /// The execution begins.
    Begin,
    /// What executing the transaction came to.
    Transacted(Result<TxExecutionResult, ExecutionError>),
    /// The changes are committed.
    Committed,
}

/// Whether an event is one that the stage waits for.
pub open spec fn sequential_event_fits(
    stage: SequentialStageView,
    event: SequentialEvent,
) -> bool {
    match stage {
        SequentialStageView::Start => event is Begin,
        SequentialStageView::Transacting { .. } => event is Transacted,
        SequentialStageView::Committing { .. } => event is Committed,
        SequentialStageView::Done(_) => false,
    }
}

/// The stage at which the results of the first transactions are known: the next
/// transaction is up, unless its type byte stands for nothing.
pub open spec fn next_transaction(
    txs: Seq<TxEnv>,
    results: Seq<TxResultView>,
    cumulative_gas_used: u64,
) -> SequentialStageView {
    if results.len() >= txs.len() {
        SequentialStageView::Done(Ok(results))
    } else {
        match crate::transaction::tx_type_of(txs[results.len() as int].tx_type) {
            Some(tx_type) => SequentialStageView::Transacting {
                results,
                tx_idx: results.len() as usize,
                tx_type,
                cumulative_gas_used,
            },
            None => SequentialStageView::Done(Err(ErrorView::Unreachable)),
        }
    }
}

/// The stage that follows an event.
pub open spec fn sequential_next(
    txs: Seq<TxEnv>,
    stage: SequentialStageView,
    event: SequentialEvent,
) -> SequentialStageView {
    match (stage, event) {
        (SequentialStageView::Start, SequentialEvent::Begin) => next_transaction(
            txs,
            Seq::empty(),
            0,
        ),
        (
            SequentialStageView::Transacting { results, cumulative_gas_used, .. },
            SequentialEvent::Transacted(Ok(result)),
        ) => {
            let used = crate::gas::gas_count(
                (cumulative_gas_used + result.receipt.cumulative_gas_used) as nat,
            );
            SequentialStageView::Committing {
                results: results.push(crate::gas::with_gas(result@, used)),
                cumulative_gas_used: used,
            }
        },
        (
            SequentialStageView::Transacting { .. },
            SequentialEvent::Transacted(Err(error)),
        ) => SequentialStageView::Done(Err(ErrorView::Execution(error@))),
        (
            SequentialStageView::Committing { results, cumulative_gas_used },
            SequentialEvent::Committed,
        ) => next_transaction(txs, results, cumulative_gas_used),
        _ => stage,
    }
}

/// The stage at which the next transaction is up.
fn proceed(
    txs: &Vec<TxEnv>,
    results: Vec<TxExecutionResult>,
    cumulative_gas_used: u64,
) -> (r: SequentialStage)
    ensures
        r@ == next_transaction(
            txs@,
            crate::result::results_view(results@),
            cumulative_gas_used,
        ),
{
    let tx_idx: usize = results.len();
    if tx_idx >= txs.len() {
        return SequentialStage::Done(Ok(results));
    }
    match crate::transaction::tx_type_from(txs[tx_idx].tx_type) {
        Some(tx_type) => SequentialStage::Transacting {
            results,
            tx_idx,
            tx_type,
            cumulative_gas_used,
        },
        None => SequentialStage::Done(Err(ParallelExecutorError::UnreachableError)),
    }
}

/// Decides how the sequential execution of a block goes on, from what it was
/// waiting for.
pub fn op_execute_sequential(
    txs: &Vec<TxEnv>,
    stage: SequentialStage,
    event: SequentialEvent,
) -> (r: SequentialStage)
    requires
        sequential_event_fits(stage@, event),
    ensures
        r@ == sequential_next(txs@, stage@, event),
{
    match (stage, event) {
        (SequentialStage::Start, SequentialEvent::Begin) => {
            let results: Vec<TxExecutionResult> = Vec::with_capacity(txs.len());
            assert(crate::result::results_view(results@) =~= Seq::empty());
            proceed(txs, results, 0)
        },
        (
            SequentialStage::Transacting { results, cumulative_gas_used, .. },
            SequentialEvent::Transacted(Ok(result)),
        ) => {
            let ghost before = crate::result::results_view(results@);
            let mut results = results;
            let (result, used) = crate::gas::accumulate_gas(result, cumulative_gas_used);
            results.push(result);
            assert(crate::result::results_view(results@) =~= before.push(result@));
            SequentialStage::Committing { results, cumulative_gas_used: used }
        },
        (SequentialStage::Transacting { .. }, SequentialEvent::Transacted(Err(error))) => {
            SequentialStage::Done(Err(ParallelExecutorError::ExecutionError(error)))
        },
        (
            SequentialStage::Committing { results, cumulative_gas_used },
            SequentialEvent::Committed,
        ) => proceed(txs, results, cumulative_gas_used),
        (stage, _) => stage,
    }
}

} // verus!
