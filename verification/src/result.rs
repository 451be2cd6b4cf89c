//! What executing a transaction or a block comes to.

use crate::account::{AccountView, EvmState};
use crate::primitives::{Address, B256, TxIdx, U256};
use crate::transaction::TxType;
use vstd::prelude::*;

verus! {

/// An event that a contract emitted.
#[derive(Debug, PartialEq, Eq)]
pub struct Log {
    pub address: Address,
    pub topics: Vec<B256>,
    pub data: Vec<u8>,
}

/// What the chain records of an executed transaction.
#[derive(Debug, PartialEq, Eq)]
pub struct Receipt {
    pub tx_type: TxType,
    pub success: bool,
    /// The gas of the transaction alone while the block is being executed; in
    /// the block's results, the gas of the block up to this transaction.
    pub cumulative_gas_used: u64,
    pub logs: Vec<Log>,
}

/// What executing one transaction came to.
#[derive(Debug, PartialEq, Eq)]
pub struct TxExecutionResult {
    pub receipt: Receipt,
    pub state: EvmState,
}

/// The model of a [`TxExecutionResult`].
#[verifier::ext_equal]
pub struct TxResultView {
    pub receipt: Receipt,
    pub state: Map<Address, AccountView>,
}

impl View for TxExecutionResult {
    type V = TxResultView;

    open spec fn view(&self) -> TxResultView {
        TxResultView { receipt: self.receipt, state: crate::account::state_view(self.state) }
    }
}

/// The models of the results in a list.
pub open spec fn results_view(results: Seq<TxExecutionResult>) -> Seq<TxResultView> {
    results.map_values(|result: TxExecutionResult| result@)
}

/// Why a transaction is not valid.
#[derive(Debug, PartialEq, Eq)]
pub enum InvalidTransaction {
    /// The caller's balance does not cover the most that the transaction can
    /// cost.
    LackOfFundForMaxFee { balance: U256, fee: U256 },
    /// Any other reason, in words.
    Other(String),
}

/// Why executing a transaction failed.
#[derive(Debug, PartialEq, Eq)]
pub enum ExecutionError {
    /// The transaction is not valid.
    Transaction(InvalidTransaction),
    /// Any other reason, in words.
    Other(String),
}

/// The model of an [`ExecutionError`].
#[verifier::ext_equal]
pub enum ExecutionErrorView {
    LackOfFundForMaxFee { balance: nat, fee: nat },
    InvalidTransaction(Seq<char>),
    Other(Seq<char>),
}

impl View for ExecutionError {
    type V = ExecutionErrorView;

    open spec fn view(&self) -> ExecutionErrorView {
        match *self {
            ExecutionError::Transaction(
                InvalidTransaction::LackOfFundForMaxFee { balance, fee },
            ) => ExecutionErrorView::LackOfFundForMaxFee { balance: balance@, fee: fee@ },
            ExecutionError::Transaction(InvalidTransaction::Other(words)) =>
                ExecutionErrorView::InvalidTransaction(words@),
            ExecutionError::Other(words) => ExecutionErrorView::Other(words@),
        }
    }
}

/// Why a block has no results.
#[derive(Debug, PartialEq, Eq)]
pub enum ParallelExecutorError {
    /// A transaction's execution failed.
    ExecutionError(ExecutionError),
    /// The storage failed, in its words.
    StorageError(String),
    /// A state that execution cannot reach.
    UnreachableError,
    /// A caller's evaluated nonce is not the one that its transaction has.
    NonceMismatch { tx_idx: TxIdx, tx_nonce: u64, executed_nonce: u64 },
}

/// The model of a [`ParallelExecutorError`].
#[verifier::ext_equal]
pub enum ErrorView {
    Execution(ExecutionErrorView),
    Storage(Seq<char>),
    Unreachable,
    NonceMismatch { tx_idx: TxIdx, tx_nonce: u64, executed_nonce: u64 },
}

impl View for ParallelExecutorError {
    type V = ErrorView;

    open spec fn view(&self) -> ErrorView {
        match *self {
            ParallelExecutorError::ExecutionError(error) => ErrorView::Execution(error@),
            ParallelExecutorError::StorageError(words) => ErrorView::Storage(words@),
            ParallelExecutorError::UnreachableError => ErrorView::Unreachable,
            ParallelExecutorError::NonceMismatch { tx_idx, tx_nonce, executed_nonce } =>
                ErrorView::NonceMismatch { tx_idx, tx_nonce, executed_nonce },
        }
    }
}

/// A block's results, one for each of its transactions, or why it has none.
pub type ParallelExecutorResult = Result<Vec<TxExecutionResult>, ParallelExecutorError>;

/// The model of a [`ParallelExecutorResult`].
pub open spec fn outcome_view(outcome: ParallelExecutorResult) -> Result<
    Seq<TxResultView>,
    ErrorView,
> {
    match outcome {
        Ok(results) => Ok(results_view(results@)),
        Err(error) => Err(error@),
    }
}

/// Why the workers stopped before the block was done.
#[derive(Debug, PartialEq, Eq)]
pub enum AbortReason {
    /// The block has to be executed one transaction after the other.
    FallbackToSequential,
    /// A transaction's execution failed.
    ExecutionError(ExecutionError),
}

/// What one execution of a transaction came to.
#[derive(Debug, PartialEq, Eq)]
pub struct VmExecutionResult {
    pub execution_result: TxExecutionResult,
    /// What the scheduler has to know of the execution, as a set of flags.
    pub flags: u8,
}

/// Why one execution of a transaction came to no result.
#[derive(Debug, PartialEq, Eq)]
pub enum VmExecutionError {
    /// The execution has to be done again.
    Retry,
    /// The block has to be executed one transaction after the other.
    FallbackToSequential,
    /// The execution needs what a transaction before it has not written yet.
    Blocking(TxIdx),
    /// The transaction's execution failed.
    ExecutionError(ExecutionError),
}

} // verus!
