use metis_pe::account::{Account, AccountInfo, AccountStatus, EvmState, StorageSlot};
use metis_pe::mv_memory::{Entry, LocationValue, WriteHistory};
use metis_pe::op_executor::{
    BlockEvent, BlockStage, ExecutionReply, ExecutionRequest, OpParallelExecutor,
};
use metis_pe::primitives::{Address, SpecId, B256, U256};
use metis_pe::result::{
    AbortReason, ExecutionError, Receipt, TxExecutionResult, VmExecutionResult,
};
use metis_pe::scheduler::TxVersion;
use metis_pe::sequential::{op_execute_sequential, SequentialEvent, SequentialStage};
use metis_pe::transaction::{TxEnv, TxType};
use revm::database::{CacheDB, EmptyDB};
use revm::{Database, DatabaseCommit};

const ALICE: Address = (1, 10);
const BOB: Address = (1, 20);
const CAROL: Address = (1, 30);
const DAVE: Address = (1, 40);

const CREATED: u8 = 1;
const DESTROYED: u8 = 2;
const TOUCHED: u8 = 4;

fn word(n: u64) -> U256 {
    U256 { limbs: [n, 0, 0, 0] }
}

fn spec() -> SpecId {
    SpecId::new(17).unwrap()
}

fn tx(caller: Address, nonce: u64) -> TxEnv {
    TxEnv {
        tx_type: 0,
        caller,
        gas_limit: 10,
        gas_price: 2,
        value: word(5),
        nonce,
        blob_hashes: Vec::new(),
        max_fee_per_blob_gas: 0,
    }
}

fn no_code() -> B256 {
    metis_pe::lazy::LazyAccount::absent().code_hash
}

fn account(balance: u64, nonce: u64, storage: &[(u64, u64)], bits: u8) -> Account {
    Account {
        info: AccountInfo { balance: word(balance), nonce, code_hash: no_code(), code: None },
        transaction_id: 0,
        storage: storage
            .iter()
            .map(|(key, value)| StorageSlot {
                key: word(*key),
                original_value: word(0),
                present_value: word(*value),
                transaction_id: 0,
                is_cold: false,
            })
            .collect(),
        status: AccountStatus { bits },
    }
}

fn result(gas: u64, accounts: Vec<(Address, Account)>) -> TxExecutionResult {
    TxExecutionResult {
        receipt: Receipt {
            tx_type: TxType::Legacy,
            success: true,
            cumulative_gas_used: gas,
            logs: Vec::new(),
        },
        state: accounts.into_iter().collect(),
    }
}

fn outside_address(address: Address) -> revm::primitives::Address {
    let bytes = [&address.0.to_be_bytes()[..], &address.1.to_be_bytes()[..]].concat();
    revm::primitives::Address::from_slice(&bytes)
}

fn outside_word(value: U256) -> revm::primitives::U256 {
    revm::primitives::U256::from_limbs(value.limbs)
}

fn outside_info(balance: U256, nonce: u64) -> revm::state::AccountInfo {
    revm::state::AccountInfo { balance: outside_word(balance), nonce, ..Default::default() }
}

fn commit(db: &mut CacheDB<EmptyDB>, state: &EvmState) {
    let changes = state
        .iter()
        .map(|(address, account)| {
            let storage = account
                .storage
                .iter()
                .map(|slot| {
                    (
                        outside_word(slot.key),
                        revm::state::EvmStorageSlot {
                            original_value: outside_word(slot.original_value),
                            present_value: outside_word(slot.present_value),
                            transaction_id: slot.transaction_id,
                            is_cold: slot.is_cold,
                        },
                    )
                })
                .collect();
            let outside = revm::state::Account {
                info: outside_info(account.info.balance, account.info.nonce),
                transaction_id: account.transaction_id,
                storage,
                status: revm::state::AccountStatus::from_bits_retain(account.status.bits),
            };
            (outside_address(*address), outside)
        })
        .collect();
    db.commit(changes);
}

/// The balance and the nonce of an account, and the word under key 7.
fn holding(db: &mut CacheDB<EmptyDB>, address: Address) -> (u64, u64, u64) {
    let info = db.basic(outside_address(address)).unwrap().unwrap_or_default();
    let stored = db.storage(outside_address(address), outside_word(word(7))).unwrap();
    (info.balance.to::<u64>(), info.nonce, stored.to::<u64>())
}

/// A storage in which ALICE has 100 and BOB has 1000 with nonce 3.
fn storage() -> CacheDB<EmptyDB> {
    let mut db = CacheDB::new(EmptyDB::default());
    db.insert_account_info(outside_address(ALICE), outside_info(word(100), 0));
    db.insert_account_info(outside_address(BOB), outside_info(word(1000), 3));
    db
}

fn executed(executor: &mut OpParallelExecutor, tx_idx: usize, execution_result: TxExecutionResult) {
    let tx_version = TxVersion { tx_idx, tx_incarnation: 0 };
    executor.try_execute(
        tx_version,
        ExecutionRequest::Execute(tx_version),
        ExecutionReply::Executed(Ok(VmExecutionResult { execution_result, flags: 0 })),
    );
}

fn joined(
    executor: &mut OpParallelExecutor,
    txs: &Vec<TxEnv>,
    workers: usize,
    executions: Vec<(usize, TxExecutionResult)>,
) -> BlockStage {
    let begin = BlockEvent::Begin { concurrency_level: workers };
    let stage = executor.execute(txs, spec(), BlockStage::Start, begin);
    for (tx_idx, execution_result) in executions {
        executed(executor, tx_idx, execution_result);
    }
    executor.execute(txs, spec(), stage, BlockEvent::WorkersJoined)
}

fn settled(
    executor: &mut OpParallelExecutor,
    txs: &Vec<TxEnv>,
    stage: BlockStage,
    address: Address,
    entries: Vec<(usize, LocationValue)>,
    stored: Option<AccountInfo>,
) -> BlockStage {
    let mut history = WriteHistory::new();
    for (tx_idx, value) in entries {
        history.insert(tx_idx, Entry::Data(0, value));
    }
    let event = BlockEvent::LazyAddress(Some((address, Some(history))));
    let stage = executor.execute(txs, spec(), stage, event);
    let stage = executor.execute(txs, spec(), stage, BlockEvent::AccountRead(Ok(stored)));
    executor.execute(txs, spec(), stage, BlockEvent::CodeRead(Ok(Vec::new())))
}

fn sequentially(txs: &Vec<TxEnv>, outcomes: Vec<TxExecutionResult>) -> Vec<TxExecutionResult> {
    let mut outcomes = outcomes.into_iter();
    let mut stage = op_execute_sequential(txs, SequentialStage::Start, SequentialEvent::Begin);
    loop {
        let event = match &stage {
            SequentialStage::Transacting { .. } => {
                SequentialEvent::Transacted(Ok(outcomes.next().unwrap()))
            }
            _ => SequentialEvent::Committed,
        };
        stage = match stage {
            SequentialStage::Done(outcome) => return outcome.unwrap(),
            waiting => op_execute_sequential(txs, waiting, event),
        };
    }
}

#[test]
fn parallel_and_sequential_states_agree() {
    // BOB pays ALICE 6, CAROL writes to a storage slot, BOB pays ALICE 9 and DAVE
    // nothing; each of BOB's transactions costs 20 besides.
    let txs = vec![tx(BOB, 3), tx(CAROL, 0), tx(BOB, 4)];
    let mut executor = OpParallelExecutor::default();
    let carol = || account(0, 1, &[(7, 70)], TOUCHED);
    let stage = joined(
        &mut executor,
        &txs,
        8,
        vec![
            (2, result(20, vec![])),
            (0, result(20, vec![])),
            (1, result(30, vec![(CAROL, carol())])),
        ],
    );
    let alice = AccountInfo { balance: word(100), nonce: 0, code_hash: no_code(), code: None };
    let stage = settled(
        &mut executor,
        &txs,
        stage,
        ALICE,
        vec![(0, LocationValue::LazyRecipient(word(6))), (2, LocationValue::LazyRecipient(word(9)))],
        Some(alice),
    );
    let bob = AccountInfo { balance: word(1000), nonce: 3, code_hash: no_code(), code: None };
    let stage = settled(
        &mut executor,
        &txs,
        stage,
        BOB,
        vec![(0, LocationValue::LazySender(word(26))), (2, LocationValue::LazySender(word(29)))],
        Some(bob),
    );
    let stage = settled(
        &mut executor,
        &txs,
        stage,
        DAVE,
        vec![(2, LocationValue::LazyRecipient(word(0)))],
        None,
    );
    let stage = executor.execute(&txs, spec(), stage, BlockEvent::LazyAddress(None));
    let BlockStage::Done(Ok(parallel)) = stage else { panic!("not done") };
    let sequential = sequentially(
        &txs,
        vec![
            result(
                20,
                vec![
                    (ALICE, account(106, 0, &[], TOUCHED)),
                    (BOB, account(974, 4, &[], TOUCHED)),
                ],
            ),
            result(30, vec![(CAROL, carol())]),
            result(
                20,
                vec![
                    (ALICE, account(115, 0, &[], TOUCHED)),
                    (BOB, account(945, 5, &[], TOUCHED)),
                    (DAVE, account(0, 0, &[], TOUCHED)),
                ],
            ),
        ],
    );

    assert_eq!(parallel.len(), sequential.len());
    let mut left = storage();
    let mut right = storage();
    for (one, other) in parallel.iter().zip(&sequential) {
        assert_eq!(one.receipt, other.receipt);
        commit(&mut left, &one.state);
        commit(&mut right, &other.state);
        for address in [ALICE, BOB, CAROL, DAVE] {
            assert_eq!(holding(&mut left, address), holding(&mut right, address));
        }
    }
    assert_eq!(holding(&mut left, ALICE), (115, 0, 0));
    assert_eq!(holding(&mut left, BOB), (945, 5, 0));
    assert_eq!(holding(&mut left, CAROL), (0, 1, 70));
    assert_eq!(holding(&mut left, DAVE), (0, 0, 0));
}

#[test]
fn settled_results_have_the_balances_of_sequential_ones() {
    let txs = vec![tx(BOB, 0)];
    let mut executor = OpParallelExecutor::default();
    let slot = result(1, vec![(ALICE, account(1, 1, &[(7, 8)], TOUCHED))]);
    let stage = joined(&mut executor, &txs, 1, vec![(0, slot)]);
    let stored = AccountInfo { balance: word(10), nonce: 2, code_hash: no_code(), code: None };
    let stage = settled(
        &mut executor,
        &txs,
        stage,
        ALICE,
        vec![(0, LocationValue::LazyRecipient(word(5)))],
        Some(stored),
    );
    let expected = result(1, vec![(ALICE, account(15, 2, &[(7, 8)], TOUCHED))]);
    assert_eq!(stage, BlockStage::Settling { results: sequentially(&txs, vec![expected]) });
}

#[test]
fn changes_are_committed_by_their_flags() {
    let change = |balance, slots, bits| {
        let accounts = vec![(ALICE, account(balance, 1, slots, bits))];
        accounts.into_iter().collect::<EvmState>()
    };
    let mut db = storage();
    commit(&mut db, &change(5, &[(7, 70)], 0));
    assert_eq!(holding(&mut db, ALICE), (100, 0, 0));
    commit(&mut db, &change(5, &[(7, 70)], TOUCHED));
    assert_eq!(holding(&mut db, ALICE), (5, 1, 70));
    commit(&mut db, &change(6, &[(8, 80)], TOUCHED));
    assert_eq!(holding(&mut db, ALICE), (6, 1, 70));
    commit(&mut db, &change(7, &[(8, 80)], TOUCHED | CREATED));
    assert_eq!(holding(&mut db, ALICE), (7, 1, 0));
    commit(&mut db, &change(8, &[(7, 71)], TOUCHED));
    commit(&mut db, &change(9, &[(7, 72)], TOUCHED | DESTROYED));
    assert_eq!(holding(&mut db, ALICE), (0, 0, 0));
}

#[test]
fn earlier_blocks_do_not_matter() {
    let mut used = OpParallelExecutor::default();
    let long = vec![tx(BOB, 0), tx(BOB, 1), tx(BOB, 2)];
    let begin = BlockEvent::Begin { concurrency_level: 2 };
    used.execute(&long, spec(), BlockStage::Start, begin);
    executed(&mut used, 0, result(90, vec![]));
    executed(&mut used, 2, result(91, vec![(CAROL, account(1, 1, &[], TOUCHED))]));

    let txs = vec![tx(BOB, 0), tx(BOB, 1)];
    let some = vec![(1, result(3, vec![])), (0, result(1, vec![])), (1, result(2, vec![]))];
    let others = vec![(0, result(8, vec![])), (1, result(2, vec![])), (0, result(1, vec![]))];
    let mut fresh = OpParallelExecutor::default();
    let stage = joined(&mut used, &txs, 1, some);
    assert_eq!(stage, joined(&mut fresh, &txs, 16, others));
    assert_eq!(
        stage,
        BlockStage::Settling { results: vec![result(1, vec![]), result(3, vec![])] }
    );
}

#[test]
fn used_executor_is_as_good_as_new() {
    let mut used = OpParallelExecutor::compiler();
    let mut fresh = OpParallelExecutor::compiler();
    let long = vec![tx(BOB, 0), tx(BOB, 1), tx(BOB, 2)];
    for reason in [
        AbortReason::FallbackToSequential,
        AbortReason::ExecutionError(ExecutionError::Other(String::from("bad"))),
    ] {
        let begin = BlockEvent::Begin { concurrency_level: 2 };
        let stage = used.execute(&long, spec(), BlockStage::Start, begin);
        executed(&mut used, 0, result(90, vec![(DAVE, account(9, 9, &[], TOUCHED))]));
        used.try_execute(
            TxVersion { tx_idx: 1, tx_incarnation: 0 },
            ExecutionRequest::AbortScheduler(reason),
            ExecutionReply::SchedulerAborted,
        );
        used.execute(&long, spec(), stage, BlockEvent::WorkersJoined);
    }

    let txs = vec![tx(CAROL, 0), tx(CAROL, 1)];
    let pays = |amount| vec![(1, LocationValue::LazyRecipient(word(amount)))];
    let stage = joined(&mut used, &txs, 1, vec![(1, result(2, vec![])), (0, result(1, vec![]))]);
    let stage = settled(&mut used, &txs, stage, ALICE, pays(4), None);
    let stage = settled(&mut used, &txs, stage, BOB, pays(5), None);
    let stage = used.execute(&txs, spec(), stage, BlockEvent::LazyAddress(None));
    let other = joined(&mut fresh, &txs, 9, vec![(0, result(1, vec![])), (1, result(2, vec![]))]);
    let other = settled(&mut fresh, &txs, other, BOB, pays(5), None);
    let other = settled(&mut fresh, &txs, other, ALICE, pays(4), None);
    let other = fresh.execute(&txs, spec(), other, BlockEvent::LazyAddress(None));
    assert_eq!(stage, other);
    let BlockStage::Done(Ok(results)) = stage else { panic!("not done") };
    assert!(results[0].state.is_empty());
    assert_eq!(results[1].state.len(), 2);
}
