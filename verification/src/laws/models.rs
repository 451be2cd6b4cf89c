//! What the models of the library's values show of them.

use crate::account::{Account, AccountInfo, EvmState};
use crate::lazy::LazyAccount;
use crate::op_executor::{BlockStage, StageView};
use crate::primitives::Address;
use crate::result::{
    ErrorView, ExecutionError, ExecutionErrorView, InvalidTransaction, ParallelExecutorError,
    ParallelExecutorResult, TxExecutionResult, TxResultView,
};
use crate::sequential::{SequentialStage, SequentialStageView};
use vstd::prelude::*;

verus! {

/// The model of an account's information shows all of it.
pub proof fn law_account_info_model(info: AccountInfo)
    ensures
        info@.balance == info.balance@,
        info@.nonce == info.nonce,
        info@.code_hash == info.code_hash,
        info@.code is Some <==> info.code is Some,
        info.code matches Some(code) ==> info@.code == Some(code@),
{
}

/// The model of an account shows all of it.
pub proof fn law_account_model(account: Account)
    ensures
        account@.info == account.info@,
        account@.transaction_id == account.transaction_id,
        account@.storage == account.storage@,
        account@.status == account.status,
{
}

/// The model of a state has the accounts of the state, each at its address.
pub proof fn law_state_model(state: EvmState, address: Address)
    ensures
        crate::account::state_view(state).contains_key(address) <==> state@.contains_key(address),
        state@.contains_key(address) ==> crate::account::state_view(state)[address]
            == state@[address]@,
{
}

/// The model of a lazily updated account shows all of it.
pub proof fn law_lazy_account_model(account: LazyAccount)
    ensures
        account@.balance == account.balance@,
        account@.nonce == account.nonce,
        account@.code_hash == account.code_hash,
{
}

/// The model of a result shows its receipt and its state.
pub proof fn law_result_model(result: TxExecutionResult)
    ensures
        result@.receipt == result.receipt,
        result@.state == crate::account::state_view(result.state),
{
}

/// The models of results are those of each of them, in order.
pub proof fn law_results_model(results: Seq<TxExecutionResult>, i: int)
    requires
        0 <= i < results.len(),
    ensures
        crate::result::results_view(results).len() == results.len(),
        crate::result::results_view(results)[i] == results[i]@,
{
}

/// The model of an execution's error tells its kind and its contents.
pub proof fn law_execution_error_model(error: ExecutionError)
    ensures
        error matches ExecutionError::Transaction(
            InvalidTransaction::LackOfFundForMaxFee { balance, fee },
        ) ==> error@ == (ExecutionErrorView::LackOfFundForMaxFee {
            balance: balance@,
            fee: fee@,
        }),
        error matches ExecutionError::Transaction(InvalidTransaction::Other(words)) ==> error@
            == ExecutionErrorView::InvalidTransaction(words@),
        error matches ExecutionError::Other(words) ==> error@ == ExecutionErrorView::Other(
            words@,
        ),
{
}

/// The model of a block's error tells its kind and its contents.
pub proof fn law_error_model(error: ParallelExecutorError)
    ensures
        error matches ParallelExecutorError::ExecutionError(failure) ==> error@
            == ErrorView::Execution(failure@),
        error matches ParallelExecutorError::StorageError(words) ==> error@ == ErrorView::Storage(
            words@,
        ),
        error is UnreachableError ==> error@ is Unreachable,
        error matches ParallelExecutorError::NonceMismatch { tx_idx, tx_nonce, executed_nonce }
            ==> error@ == (ErrorView::NonceMismatch { tx_idx, tx_nonce, executed_nonce }),
{
}

/// The model of a block's outcome has all of its results, or its error.
pub proof fn law_outcome_model(outcome: ParallelExecutorResult)
    ensures
        outcome matches Ok(results) ==> crate::result::outcome_view(outcome) == Ok::<
            Seq<TxResultView>,
            ErrorView,
        >(crate::result::results_view(results@)),
        outcome matches Err(error) ==> crate::result::outcome_view(outcome) == Err::<
            Seq<TxResultView>,
            ErrorView,
        >(error@),
{
}

/// The model of a block's stage shows what the stage is and all that it holds.
pub proof fn law_stage_model(stage: BlockStage)
    ensures
        stage is Start <==> stage@ is Start,
        stage is Sequential <==> stage@ is Sequential,
        stage matches BlockStage::Working { block_size, workers } ==> stage@ == (
        StageView::Working { block_size, workers }),
        stage matches BlockStage::Settling { results } ==> stage@ == (StageView::Settling {
            results: crate::result::results_view(results@),
        }),
        stage matches BlockStage::ReadingAccount { results, address, history } ==> stage@ == (
        StageView::ReadingAccount {
            results: crate::result::results_view(results@),
            address,
            history: history@,
        }),
        stage matches BlockStage::ReadingCode { results, address, history, start } ==> stage@ == (
        StageView::ReadingCode {
            results: crate::result::results_view(results@),
            address,
            history: history@,
            start: start@,
        }),
        stage matches BlockStage::Done(outcome) ==> stage@ == StageView::Done(
            crate::result::outcome_view(outcome),
        ),
{
}

/// The model of a sequential execution's stage shows what the stage is and all that
/// it holds.
pub proof fn law_sequential_stage_model(stage: SequentialStage)
    ensures
        stage is Start <==> stage@ is Start,
        stage matches SequentialStage::Transacting {
            results,
            tx_idx,
            tx_type,
            cumulative_gas_used,
        } ==> stage@ == (SequentialStageView::Transacting {
            results: crate::result::results_view(results@),
            tx_idx,
            tx_type,
            cumulative_gas_used,
        }),
        stage matches SequentialStage::Committing { results, cumulative_gas_used } ==> stage@ == (
        SequentialStageView::Committing {
            results: crate::result::results_view(results@),
            cumulative_gas_used,
        }),
        stage matches SequentialStage::Done(outcome) ==> stage@ == SequentialStageView::Done(
            crate::result::outcome_view(outcome),
        ),
{
}

} // verus!
