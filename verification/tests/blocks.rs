use metis_pe::account::{AccountInfo, EvmState};
use metis_pe::gas::accumulate_gas;
use metis_pe::lazy::LazyAccount;
use metis_pe::mv_memory::{Entry, LocationValue, WriteHistory};
use metis_pe::op_executor::{
    try_validate, BlockEvent, BlockStage, CompileWorker, ExecutionReply, ExecutionRequest,
    OpParallelExecutor, ValidationReply, ValidationRequest,
};
use metis_pe::primitives::{Address, SpecId, B256, U256};
use metis_pe::result::{
    AbortReason, ExecutionError, InvalidTransaction, ParallelExecutorError, Receipt,
    TxExecutionResult, VmExecutionError, VmExecutionResult,
};
use metis_pe::scheduler::{next_request, Task, TxVersion, WorkerReply, WorkerRequest};
use metis_pe::sequential::{op_execute_sequential, SequentialEvent, SequentialStage};
use metis_pe::transaction::{TxEnv, TxType};

const ALICE: Address = (1, 10);
const BOB: Address = (1, 20);

fn word(n: u64) -> U256 {
    U256 { limbs: [n, 0, 0, 0] }
}

fn spec() -> SpecId {
    SpecId::new(17).unwrap()
}

fn tx(tx_type: u8) -> TxEnv {
    TxEnv {
        tx_type,
        caller: BOB,
        gas_limit: 10,
        gas_price: 2,
        value: word(5),
        nonce: 0,
        blob_hashes: Vec::new(),
        max_fee_per_blob_gas: 0,
    }
}

fn result(gas: u64) -> TxExecutionResult {
    TxExecutionResult {
        receipt: Receipt {
            tx_type: TxType::Legacy,
            success: true,
            cumulative_gas_used: gas,
            logs: Vec::new(),
        },
        state: EvmState::new(),
    }
}

fn version(tx_idx: usize) -> TxVersion {
    TxVersion { tx_idx, tx_incarnation: 0 }
}

fn failure() -> ExecutionError {
    ExecutionError::Transaction(InvalidTransaction::Other(String::from("bad")))
}

/// Runs a transaction whose execution comes to a result.
fn run(executor: &mut OpParallelExecutor, tx_idx: usize, gas: u64) {
    let request = executor.try_execute(
        version(tx_idx),
        ExecutionRequest::Execute(version(tx_idx)),
        ExecutionReply::Executed(Ok(VmExecutionResult {
            execution_result: result(gas),
            flags: 1,
        })),
    );
    assert_eq!(
        request,
        ExecutionRequest::FinishExecution { tx_version: version(tx_idx), flags: 1 }
    );
}

/// Aborts the block for a reason.
fn abort(executor: &mut OpParallelExecutor, reason: AbortReason) {
    let request = executor.try_execute(
        version(0),
        ExecutionRequest::AbortScheduler(reason),
        ExecutionReply::SchedulerAborted,
    );
    assert_eq!(request, ExecutionRequest::Done(None));
}

fn begin(executor: &mut OpParallelExecutor, txs: &Vec<TxEnv>) -> BlockStage {
    executor.execute(txs, spec(), BlockStage::Start, BlockEvent::Begin { concurrency_level: 4 })
}

fn gas_of(results: &Vec<TxExecutionResult>) -> Vec<u64> {
    results.iter().map(|result| result.receipt.cumulative_gas_used).collect()
}

#[test]
fn executors_differ_in_their_compile_worker() {
    assert_eq!(OpParallelExecutor::default().worker, CompileWorker::Disabled);
    assert_eq!(OpParallelExecutor::compiler().worker, CompileWorker::Aot);
    assert!(!OpParallelExecutor::default().is_aborted());
}

#[test]
fn builder_has_a_default() {
    let builder = metis_pe::op_provider::OpParallelExecutorBuilder::default();
    assert_eq!(format!("{:?}", builder), "OpParallelExecutorBuilder");
}

#[test]
fn empty_block_has_no_results() {
    let mut executor = OpParallelExecutor::default();
    assert_eq!(begin(&mut executor, &Vec::new()), BlockStage::Done(Ok(Vec::new())));
    assert_eq!(executor, OpParallelExecutor::default());
}

#[test]
fn block_begins_with_its_workers() {
    let mut executor = OpParallelExecutor::default();
    let stage = begin(&mut executor, &vec![tx(0), tx(0)]);
    assert_eq!(stage, BlockStage::Working { block_size: 2, workers: 4 });
    assert!(!executor.is_complete(2));
    assert!(executor.is_complete(0));
    assert!(!executor.is_complete(3));
}

#[test]
fn results_have_their_gas_counted_up() {
    let mut executor = OpParallelExecutor::default();
    let txs = vec![tx(0), tx(0), tx(0)];
    let stage = begin(&mut executor, &txs);
    run(&mut executor, 2, 5);
    run(&mut executor, 0, 100);
    run(&mut executor, 0, 3);
    run(&mut executor, 1, 4);
    assert!(executor.is_complete(3));
    let stage = executor.execute(&txs, spec(), stage, BlockEvent::WorkersJoined);
    let BlockStage::Settling { results } = stage else { panic!("not settling") };
    assert_eq!(gas_of(&results), vec![3, 7, 12]);
    assert!(!executor.is_complete(1));
    let stage = executor.execute(
        &txs,
        spec(),
        BlockStage::Settling { results },
        BlockEvent::LazyAddress(None),
    );
    let BlockStage::Done(Ok(results)) = stage else { panic!("not done") };
    assert_eq!(results.len(), 3);
}

#[test]
fn gas_stops_at_the_largest_count() {
    let (first, used) = accumulate_gas(result(u64::MAX - 1), 0);
    assert_eq!((first.receipt.cumulative_gas_used, used), (u64::MAX - 1, u64::MAX - 1));
    let (second, used) = accumulate_gas(result(5), used);
    assert_eq!((second.receipt.cumulative_gas_used, used), (u64::MAX, u64::MAX));
}

#[test]
fn slots_of_a_longer_block_stay() {
    let mut executor = OpParallelExecutor::default();
    let long = vec![tx(0), tx(0), tx(0)];
    begin(&mut executor, &long);
    run(&mut executor, 2, 9);
    let short = vec![tx(0)];
    let stage = begin(&mut executor, &short);
    run(&mut executor, 0, 1);
    let stage = executor.execute(&short, spec(), stage, BlockEvent::WorkersJoined);
    assert_eq!(stage, BlockStage::Settling { results: vec![result(1)] });
    run(&mut executor, 0, 1);
    run(&mut executor, 1, 1);
    assert!(executor.is_complete(3));
}

#[test]
fn retry_executes_again_until_the_block_is_aborted() {
    let mut executor = OpParallelExecutor::default();
    let retry = || ExecutionReply::Executed(Err(VmExecutionError::Retry));
    let again = ExecutionRequest::Execute(version(3));
    assert_eq!(
        executor.try_execute(version(3), ExecutionRequest::Execute(version(3)), retry()),
        again
    );
    abort(&mut executor, AbortReason::FallbackToSequential);
    assert_eq!(
        executor.try_execute(version(3), ExecutionRequest::Execute(version(3)), retry()),
        ExecutionRequest::Done(None)
    );
}

#[test]
fn blocked_execution_waits_for_the_transaction_before() {
    let mut executor = OpParallelExecutor::default();
    let request = executor.try_execute(
        version(3),
        ExecutionRequest::Execute(version(3)),
        ExecutionReply::Executed(Err(VmExecutionError::Blocking(1))),
    );
    let blocked = || ExecutionRequest::AddDependency { tx_idx: 3, blocking_tx_idx: 1 };
    assert_eq!(request, blocked());
    assert_eq!(
        executor.try_execute(version(3), blocked(), ExecutionReply::DependencyAdded(true)),
        ExecutionRequest::Done(None)
    );
    assert_eq!(
        executor.try_execute(version(3), blocked(), ExecutionReply::DependencyAdded(false)),
        ExecutionRequest::Execute(version(3))
    );
    abort(&mut executor, AbortReason::FallbackToSequential);
    assert_eq!(
        executor.try_execute(version(3), blocked(), ExecutionReply::DependencyAdded(false)),
        ExecutionRequest::Done(None)
    );
}

#[test]
fn failed_executions_abort_the_scheduler_first() {
    let mut executor = OpParallelExecutor::default();
    let request = executor.try_execute(
        version(0),
        ExecutionRequest::Execute(version(0)),
        ExecutionReply::Executed(Err(VmExecutionError::FallbackToSequential)),
    );
    assert_eq!(request, ExecutionRequest::AbortScheduler(AbortReason::FallbackToSequential));
    let request = executor.try_execute(
        version(0),
        ExecutionRequest::Execute(version(0)),
        ExecutionReply::Executed(Err(VmExecutionError::ExecutionError(failure()))),
    );
    assert_eq!(
        request,
        ExecutionRequest::AbortScheduler(AbortReason::ExecutionError(failure()))
    );
    assert!(!executor.is_aborted());
}

#[test]
fn finished_execution_hands_on_what_follows() {
    let mut executor = OpParallelExecutor::default();
    let follow_up = Some(Task::Validation(version(0)));
    let request = executor.try_execute(
        version(0),
        ExecutionRequest::FinishExecution { tx_version: version(0), flags: 0 },
        ExecutionReply::Finished(follow_up),
    );
    assert_eq!(request, ExecutionRequest::Done(follow_up));
}

#[test]
fn first_reason_for_an_abort_stands() {
    let mut executor = OpParallelExecutor::default();
    let txs = vec![tx(0)];
    let stage = begin(&mut executor, &txs);
    abort(&mut executor, AbortReason::ExecutionError(failure()));
    abort(&mut executor, AbortReason::FallbackToSequential);
    assert!(executor.is_aborted());
    let stage = executor.execute(&txs, spec(), stage, BlockEvent::WorkersJoined);
    assert_eq!(
        stage,
        BlockStage::Done(Err(ParallelExecutorError::ExecutionError(failure())))
    );
    assert!(!executor.is_aborted());
}

#[test]
fn fallback_gives_what_the_sequential_execution_came_to() {
    let mut executor = OpParallelExecutor::default();
    let txs = vec![tx(0)];
    let stage = begin(&mut executor, &txs);
    run(&mut executor, 0, 1);
    abort(&mut executor, AbortReason::FallbackToSequential);
    let stage = executor.execute(&txs, spec(), stage, BlockEvent::WorkersJoined);
    assert_eq!(stage, BlockStage::Sequential);
    let stage = executor.execute(
        &txs,
        spec(),
        stage,
        BlockEvent::ExecutedSequentially(Ok(vec![result(8)])),
    );
    assert_eq!(stage, BlockStage::Done(Ok(vec![result(8)])));
}

#[test]
fn account_that_nobody_wrote_to_is_passed_over() {
    let mut executor = OpParallelExecutor::default();
    let txs = vec![tx(0)];
    let stage = executor.execute(
        &txs,
        spec(),
        BlockStage::Settling { results: vec![result(1)] },
        BlockEvent::LazyAddress(Some((ALICE, None))),
    );
    assert_eq!(stage, BlockStage::Settling { results: vec![result(1)] });
}

#[test]
fn absolute_history_needs_no_stored_account() {
    let mut executor = OpParallelExecutor::default();
    let info = AccountInfo { balance: word(4), nonce: 1, code_hash: B256 { hi: 1, lo: 1 }, code: None };
    let mut history = WriteHistory::new();
    history.insert(0, Entry::Data(0, LocationValue::Basic(info)));
    let stage = executor.execute(
        &vec![tx(0)],
        spec(),
        BlockStage::Settling { results: vec![result(1)] },
        BlockEvent::LazyAddress(Some((ALICE, Some(history)))),
    );
    let BlockStage::ReadingCode { start, address, .. } = stage else { panic!("no code read") };
    assert_eq!(start, LazyAccount::absent());
    assert_eq!(address, ALICE);
}

#[test]
fn lazy_account_goes_from_storage_into_the_results() {
    let mut executor = OpParallelExecutor::default();
    let txs = vec![tx(0), tx(0)];
    let mut history = WriteHistory::new();
    history.insert(1, Entry::Data(0, LocationValue::LazyRecipient(word(6))));
    let stage = executor.execute(
        &txs,
        spec(),
        BlockStage::Settling { results: vec![result(1), result(2)] },
        BlockEvent::LazyAddress(Some((ALICE, Some(history)))),
    );
    assert!(matches!(stage, BlockStage::ReadingAccount { address: ALICE, .. }));
    let code_hash = B256 { hi: 3, lo: 4 };
    let stored = AccountInfo { balance: word(100), nonce: 2, code_hash, code: None };
    let stage = executor.execute(&txs, spec(), stage, BlockEvent::AccountRead(Ok(Some(stored))));
    let BlockStage::ReadingCode { start, .. } = &stage else { panic!("no code read") };
    assert_eq!(start.code_hash, code_hash);
    let stage = executor.execute(&txs, spec(), stage, BlockEvent::CodeRead(Ok(vec![7, 8])));
    let BlockStage::Settling { results } = stage else { panic!("not settling") };
    assert_eq!(results[0], result(1));
    let account = results[1].state.get(&ALICE).unwrap();
    assert_eq!(account.info.balance, word(106));
    assert_eq!(account.info.nonce, 2);
    assert_eq!(account.info.code_hash, code_hash);
    assert_eq!(account.info.code, Some(vec![7, 8]));
}

#[test]
fn storage_that_fails_for_an_account_counts_it_as_absent() {
    let mut executor = OpParallelExecutor::default();
    let stage = executor.execute(
        &vec![tx(0)],
        spec(),
        BlockStage::ReadingAccount {
            results: vec![result(1)],
            address: ALICE,
            history: WriteHistory::new(),
        },
        BlockEvent::AccountRead(Err(String::from("gone"))),
    );
    let BlockStage::ReadingCode { start, .. } = stage else { panic!("no code read") };
    assert_eq!(start, LazyAccount::absent());
}

#[test]
fn storage_that_fails_for_code_is_an_error() {
    let mut executor = OpParallelExecutor::default();
    let stage = executor.execute(
        &vec![tx(0)],
        spec(),
        BlockStage::ReadingCode {
            results: vec![result(1)],
            address: ALICE,
            history: WriteHistory::new(),
            start: LazyAccount::absent(),
        },
        BlockEvent::CodeRead(Err(String::from("gone"))),
    );
    assert_eq!(
        stage,
        BlockStage::Done(Err(ParallelExecutorError::StorageError(String::from("gone"))))
    );
}

#[test]
fn evaluation_that_fails_ends_the_block() {
    let mut executor = OpParallelExecutor::default();
    let mut history = WriteHistory::new();
    history.insert(0, Entry::Data(0, LocationValue::LazySender(word(1))));
    let stage = executor.execute(
        &vec![tx(0)],
        spec(),
        BlockStage::ReadingCode {
            results: vec![result(1)],
            address: BOB,
            history,
            start: LazyAccount::absent(),
        },
        BlockEvent::CodeRead(Ok(Vec::new())),
    );
    assert_eq!(
        stage,
        BlockStage::Done(Err(ParallelExecutorError::ExecutionError(
            ExecutionError::Transaction(InvalidTransaction::LackOfFundForMaxFee {
                balance: word(0),
                fee: word(25),
            })
        )))
    );
}

/// The requests of a validation in which each service answers as given.
fn validation(read_set_valid: bool, abort_granted: bool) -> Vec<ValidationRequest> {
    let mut requests = vec![ValidationRequest::ValidateReadLocations(5)];
    loop {
        let request = requests[requests.len() - 1];
        let reply = match request {
            ValidationRequest::ValidateReadLocations(_) => {
                ValidationReply::ReadSetValid(read_set_valid)
            }
            ValidationRequest::TryValidationAbort(_) => ValidationReply::Aborted(abort_granted),
            ValidationRequest::ConvertWritesToEstimates(_) => ValidationReply::WritesConverted,
            ValidationRequest::FinishValidation { .. } => ValidationReply::Finished(None),
            ValidationRequest::Done(_) => return requests,
        };
        requests.push(try_validate(version(5), request, reply));
    }
}

#[test]
fn valid_reads_finish_without_an_abort() {
    assert_eq!(
        validation(true, true),
        vec![
            ValidationRequest::ValidateReadLocations(5),
            ValidationRequest::FinishValidation { tx_version: version(5), aborted: false },
            ValidationRequest::Done(None),
        ]
    );
}

#[test]
fn stale_reads_abort_and_mark_the_writes() {
    assert_eq!(
        validation(false, true),
        vec![
            ValidationRequest::ValidateReadLocations(5),
            ValidationRequest::TryValidationAbort(version(5)),
            ValidationRequest::ConvertWritesToEstimates(5),
            ValidationRequest::FinishValidation { tx_version: version(5), aborted: true },
            ValidationRequest::Done(None),
        ]
    );
}

#[test]
fn stale_reads_that_another_worker_aborts_mark_nothing() {
    assert_eq!(
        validation(false, false),
        vec![
            ValidationRequest::ValidateReadLocations(5),
            ValidationRequest::TryValidationAbort(version(5)),
            ValidationRequest::FinishValidation { tx_version: version(5), aborted: false },
            ValidationRequest::Done(None),
        ]
    );
}

#[test]
fn worker_runs_until_there_is_nothing_to_run() {
    let first = Task::Execution(version(0));
    let second = Task::Validation(version(0));
    let request = next_request(WorkerRequest::NextTask, WorkerReply::Scheduled(Some(first)));
    assert_eq!(request, WorkerRequest::Run(first));
    let request =
        next_request(request, WorkerReply::Ran { follow_up: Some(second), aborted: false });
    assert_eq!(request, WorkerRequest::Run(second));
    let request = next_request(request, WorkerReply::Ran { follow_up: None, aborted: false });
    assert_eq!(request, WorkerRequest::NextTask);
    let request = next_request(request, WorkerReply::Scheduled(None));
    assert_eq!(request, WorkerRequest::Stop);
}

#[test]
fn worker_stops_once_the_block_is_aborted() {
    let task = Task::Execution(version(0));
    let reply = WorkerReply::Ran { follow_up: Some(task), aborted: true };
    assert_eq!(next_request(WorkerRequest::Run(task), reply), WorkerRequest::Stop);
}

/// Executes a block sequentially, where its transactions come to `outcomes`.
fn sequentially(
    txs: &Vec<TxEnv>,
    outcomes: Vec<Result<TxExecutionResult, ExecutionError>>,
) -> (Result<Vec<TxExecutionResult>, ParallelExecutorError>, Vec<TxType>) {
    let mut kinds = Vec::new();
    let mut outcomes = outcomes.into_iter();
    let mut stage = op_execute_sequential(txs, SequentialStage::Start, SequentialEvent::Begin);
    loop {
        let event = match &stage {
            SequentialStage::Transacting { tx_idx, tx_type, .. } => {
                assert_eq!(*tx_idx, kinds.len());
                kinds.push(*tx_type);
                SequentialEvent::Transacted(outcomes.next().unwrap())
            }
            _ => SequentialEvent::Committed,
        };
        stage = match stage {
            SequentialStage::Done(outcome) => return (outcome, kinds),
            stage => op_execute_sequential(txs, stage, event),
        };
    }
}

#[test]
fn sequential_results_have_their_gas_counted_up() {
    let txs = vec![tx(0), tx(1), tx(2), tx(3), tx(4)];
    let outcomes = vec![Ok(result(3)), Ok(result(4)), Ok(result(5)), Ok(result(0)), Ok(result(1))];
    let (outcome, kinds) = sequentially(&txs, outcomes);
    assert_eq!(gas_of(&outcome.unwrap()), vec![3, 7, 12, 12, 13]);
    assert_eq!(
        kinds,
        vec![
            TxType::Legacy,
            TxType::Eip2930,
            TxType::Eip1559,
            TxType::Eip4844,
            TxType::Eip7702,
        ]
    );
}

#[test]
fn sequential_execution_ends_at_the_first_failure() {
    let txs = vec![tx(0), tx(0), tx(0)];
    let (outcome, kinds) = sequentially(&txs, vec![Ok(result(3)), Err(failure())]);
    assert_eq!(outcome, Err(ParallelExecutorError::ExecutionError(failure())));
    assert_eq!(kinds.len(), 2);
}

#[test]
fn sequential_execution_refuses_an_unknown_type() {
    for byte in 5..=u8::MAX {
        let (outcome, kinds) = sequentially(&vec![tx(0), tx(byte)], vec![Ok(result(3))]);
        assert_eq!(outcome, Err(ParallelExecutorError::UnreachableError));
        assert_eq!(kinds.len(), 1);
    }
}

#[test]
fn sequential_execution_of_an_empty_block() {
    assert_eq!(sequentially(&Vec::new(), Vec::new()), (Ok(Vec::new()), Vec::new()));
}

#[test]
fn first_results_are_those_of_the_first_transactions() {
    let outcomes = |n: usize| [3, 4, 5].into_iter().take(n).map(|gas| Ok(result(gas))).collect();
    let (all, _) = sequentially(&vec![tx(0), tx(1), tx(2)], outcomes(3));
    let (some, _) = sequentially(&vec![tx(0), tx(1)], outcomes(2));
    assert_eq!(some.unwrap()[..], all.unwrap()[..2]);
}

#[test]
fn error_stands_whatever_comes_behind_it() {
    let failed = || vec![Ok(result(3)), Err(failure())];
    let (outcome, _) = sequentially(&vec![tx(0), tx(0)], failed());
    let mut more = failed();
    more.push(Ok(result(1)));
    let (longer, kinds) = sequentially(&vec![tx(0), tx(0), tx(9)], more);
    assert_eq!(outcome, longer);
    assert_eq!(kinds.len(), 2);
    let (unknown, _) = sequentially(&vec![tx(9)], Vec::new());
    let (longer, _) = sequentially(&vec![tx(9), tx(0)], Vec::new());
    assert_eq!(unknown, longer);
}

#[test]
fn second_block_counts_on_from_the_first() {
    let txs = |n: usize| (0..n).map(|_| tx(0)).collect();
    let (first, _) = sequentially(&txs(2), vec![Ok(result(3)), Ok(result(4))]);
    let (second, _) = sequentially(&txs(2), vec![Ok(result(5)), Ok(result(u64::MAX))]);
    let (both, _) = sequentially(
        &txs(4),
        vec![Ok(result(3)), Ok(result(4)), Ok(result(5)), Ok(result(u64::MAX))],
    );
    assert_eq!(gas_of(&first.unwrap()), vec![3, 7]);
    assert_eq!(gas_of(&second.unwrap()), vec![5, u64::MAX]);
    assert_eq!(gas_of(&both.unwrap()), vec![3, 7, 12, u64::MAX]);
}

#[test]
fn parallel_and_sequential_receipts_agree() {
    let txs = vec![tx(0), tx(0)];
    let mut executor = OpParallelExecutor::default();
    let stage = begin(&mut executor, &txs);
    run(&mut executor, 1, u64::MAX);
    run(&mut executor, 0, 2);
    let stage = executor.execute(&txs, spec(), stage, BlockEvent::WorkersJoined);
    let (outcome, _) = sequentially(&txs, vec![Ok(result(2)), Ok(result(u64::MAX))]);
    assert_eq!(stage, BlockStage::Settling { results: outcome.unwrap() });
}

#[test]
fn every_transaction_of_a_block_has_a_slot() {
    let mut executor = OpParallelExecutor::default();
    assert!(!executor.has_slot(0));
    begin(&mut executor, &vec![tx(0), tx(0)]);
    assert!(executor.has_slot(0) && executor.has_slot(1) && !executor.has_slot(2));
    begin(&mut executor, &vec![tx(0)]);
    assert!(executor.has_slot(1));
}
