use metis_pe::account::{Account, AccountInfo, AccountStatus, EvmState, StorageSlot};
use metis_pe::lazy::{can_settle, settle_account, LazyAccount};
use metis_pe::mv_memory::{starts_with_absolute, timeline, Entry, LocationValue, WriteHistory};
use metis_pe::primitives::{Address, SpecId, B256, U256};
use metis_pe::result::{
    ExecutionError, InvalidTransaction, ParallelExecutorError, Receipt, TxExecutionResult,
};
use metis_pe::transaction::{TxEnv, TxType};

const ALICE: Address = (1, 10);
const BOB: Address = (1, 20);
const CODE_HASH: B256 = B256 { hi: 8, lo: 9 };
const NO_CODE: B256 = B256 {
    hi: 0xc5d2_4601_86f7_233c_927e_7db2_dcc7_03c0,
    lo: 0xe500_b653_ca82_273b_7bfa_d804_5d85_a470,
};

fn word(n: u64) -> U256 {
    U256 { limbs: [n, 0, 0, 0] }
}

fn cancun() -> SpecId {
    SpecId::new(17).unwrap()
}

fn homestead() -> SpecId {
    SpecId::new(2).unwrap()
}

fn tx(caller: Address, nonce: u64) -> TxEnv {
    TxEnv {
        tx_type: 2,
        caller,
        gas_limit: 10,
        gas_price: 2,
        value: word(5),
        nonce,
        blob_hashes: Vec::new(),
        max_fee_per_blob_gas: 0,
    }
}

fn result(gas: u64) -> TxExecutionResult {
    TxExecutionResult {
        receipt: Receipt {
            tx_type: TxType::Eip1559,
            success: true,
            cumulative_gas_used: gas,
            logs: Vec::new(),
        },
        state: EvmState::new(),
    }
}

fn info(balance: u64, nonce: u64, code_hash: B256) -> AccountInfo {
    AccountInfo { balance: word(balance), nonce, code_hash, code: None }
}

fn lazy(balance: u64, nonce: u64, code_hash: B256) -> LazyAccount {
    LazyAccount { balance: word(balance), nonce, code_hash }
}

fn sends(amount: u64) -> Entry {
    Entry::Data(0, LocationValue::LazySender(word(amount)))
}

fn receives(amount: u64) -> Entry {
    Entry::Data(0, LocationValue::LazyRecipient(word(amount)))
}

fn becomes(balance: u64, nonce: u64) -> Entry {
    Entry::Data(1, LocationValue::Basic(info(balance, nonce, NO_CODE)))
}

fn history(entries: Vec<(usize, Entry)>) -> WriteHistory {
    let mut history = WriteHistory::new();
    for (tx_idx, entry) in entries {
        history.insert(tx_idx, entry);
    }
    history
}

fn new_account(balance: u64, nonce: u64, code_hash: B256, code: Vec<u8>) -> Account {
    Account {
        info: AccountInfo { balance: word(balance), nonce, code_hash, code: Some(code) },
        transaction_id: 0,
        storage: Vec::new(),
        status: AccountStatus { bits: 4 },
    }
}

#[test]
fn timeline_lists_entries_in_order() {
    let history = history(vec![(7, receives(1)), (2, sends(3)), (4, becomes(9, 1))]);
    let entries = timeline(&history);
    assert_eq!(entries, vec![(2, &sends(3)), (4, &becomes(9, 1)), (7, &receives(1))]);
}

#[test]
fn only_an_absolute_first_entry_counts_as_absolute() {
    assert!(starts_with_absolute(&history(vec![(3, becomes(1, 0)), (5, receives(1))])));
    assert!(!starts_with_absolute(&history(vec![(3, receives(1)), (5, becomes(1, 0))])));
    assert!(!starts_with_absolute(&history(vec![(3, Entry::Estimate)])));
    assert!(!starts_with_absolute(&history(Vec::new())));
}

#[test]
fn touched_is_the_flag_of_the_evm() {
    assert_eq!(revm::state::AccountStatus::Touched.bits(), 4);
}

#[test]
fn absent_account_has_the_hash_of_no_code() {
    let absent = LazyAccount::absent();
    assert_eq!(absent, lazy(0, 0, NO_CODE));
    let bytes = revm::primitives::KECCAK_EMPTY.0;
    assert_eq!(absent.code_hash.hi.to_be_bytes()[..], bytes[..16]);
    assert_eq!(absent.code_hash.lo.to_be_bytes()[..], bytes[16..]);
}

#[test]
fn stored_account_is_what_the_storage_answers() {
    assert_eq!(LazyAccount::from_storage(Ok(Some(info(3, 4, CODE_HASH)))), lazy(3, 4, CODE_HASH));
    assert_eq!(LazyAccount::from_storage(Ok(None)), LazyAccount::absent());
    assert_eq!(LazyAccount::from_storage(Err(String::from("gone"))), LazyAccount::absent());
}

#[test]
fn sender_pays_and_its_nonce_rises() {
    let txs = vec![tx(ALICE, 7), tx(BOB, 0), tx(ALICE, 8)];
    let history = history(vec![(0, sends(20)), (2, sends(21))]);
    let start = lazy(100, 7, NO_CODE);
    assert!(can_settle(&txs, ALICE, &history, start));
    let results = settle_account(
        vec![result(1), result(2), result(3)],
        &txs,
        cancun(),
        ALICE,
        &history,
        start,
        &vec![1, 2],
    )
    .unwrap();
    assert_eq!(results[0].state.get(&ALICE), Some(&new_account(80, 8, NO_CODE, vec![1, 2])));
    assert_eq!(results[1], result(2));
    assert_eq!(results[2].state.get(&ALICE), Some(&new_account(59, 9, NO_CODE, vec![1, 2])));
    assert_eq!(results[2].receipt, result(3).receipt);
}

#[test]
fn sender_spends_no_further_than_zero() {
    let txs = vec![tx(ALICE, 0)];
    let results = settle_account(
        vec![result(1)],
        &txs,
        cancun(),
        ALICE,
        &history(vec![(0, sends(31))]),
        lazy(30, 0, NO_CODE),
        &Vec::new(),
    )
    .unwrap();
    assert_eq!(results[0].state.get(&ALICE).unwrap().info.balance, word(0));
    assert_eq!(results[0].state.get(&ALICE).unwrap().info.nonce, 1);
}

#[test]
fn sender_without_funds_for_the_fee_is_an_error() {
    let txs = vec![tx(ALICE, 0)];
    let outcome = settle_account(
        vec![result(1)],
        &txs,
        cancun(),
        ALICE,
        &history(vec![(0, sends(1))]),
        lazy(24, 0, NO_CODE),
        &Vec::new(),
    );
    assert_eq!(
        outcome,
        Err(ParallelExecutorError::ExecutionError(ExecutionError::Transaction(
            InvalidTransaction::LackOfFundForMaxFee { balance: word(24), fee: word(25) }
        )))
    );
}

#[test]
fn sender_with_just_the_fee_goes_through() {
    let txs = vec![tx(ALICE, 0)];
    let outcome = settle_account(
        vec![result(1)],
        &txs,
        cancun(),
        ALICE,
        &history(vec![(0, sends(25))]),
        lazy(25, 0, NO_CODE),
        &Vec::new(),
    );
    assert_eq!(outcome.unwrap()[0].state.get(&ALICE).unwrap().info.nonce, 1);
}

#[test]
fn recipient_accumulates_and_stops_at_the_largest_amount() {
    let txs = vec![tx(BOB, 0), tx(BOB, 1), tx(BOB, 2)];
    let mut entries = vec![(0, receives(5)), (1, receives(6))];
    entries.push((2, Entry::Data(0, LocationValue::LazyRecipient(U256 { limbs: [u64::MAX; 4] }))));
    let results = settle_account(
        vec![result(1), result(1), result(1)],
        &txs,
        cancun(),
        ALICE,
        &history(entries),
        lazy(100, 3, NO_CODE),
        &Vec::new(),
    )
    .unwrap();
    assert_eq!(results[0].state.get(&ALICE).unwrap().info.balance, word(105));
    assert_eq!(results[1].state.get(&ALICE).unwrap().info.balance, word(111));
    assert_eq!(
        results[2].state.get(&ALICE).unwrap().info.balance,
        U256 { limbs: [u64::MAX; 4] }
    );
    assert_eq!(results[2].state.get(&ALICE).unwrap().info.nonce, 3);
}

#[test]
fn sums_carry_into_the_next_limb() {
    let txs = vec![tx(BOB, 0)];
    let results = settle_account(
        vec![result(1)],
        &txs,
        cancun(),
        ALICE,
        &history(vec![(0, receives(1))]),
        LazyAccount { balance: U256 { limbs: [u64::MAX, 0, 3, 0] }, nonce: 0, code_hash: NO_CODE },
        &Vec::new(),
    )
    .unwrap();
    assert_eq!(
        results[0].state.get(&ALICE).unwrap().info.balance,
        U256 { limbs: [0, 1, 3, 0] }
    );
}

#[test]
fn absolute_value_replaces_balance_and_nonce() {
    let txs = vec![tx(BOB, 0), tx(BOB, 1)];
    let results = settle_account(
        vec![result(1), result(1)],
        &txs,
        cancun(),
        ALICE,
        &history(vec![(0, becomes(40, 2)), (1, receives(2))]),
        lazy(1, 1, CODE_HASH),
        &vec![9],
    )
    .unwrap();
    assert_eq!(results[0].state.get(&ALICE), Some(&new_account(40, 2, CODE_HASH, vec![9])));
    assert_eq!(results[1].state.get(&ALICE), Some(&new_account(42, 2, CODE_HASH, vec![9])));
}

#[test]
fn absolute_start_makes_the_stored_balance_irrelevant() {
    let txs = vec![tx(BOB, 0), tx(BOB, 1)];
    let settle = |start: LazyAccount| {
        settle_account(
            vec![result(1), result(1)],
            &txs,
            cancun(),
            ALICE,
            &history(vec![(0, becomes(40, 2)), (1, receives(2))]),
            start,
            &Vec::new(),
        )
    };
    assert_eq!(settle(lazy(1, 1, NO_CODE)), settle(lazy(77, 5, NO_CODE)));
}

#[test]
fn callers_nonce_has_to_match() {
    let txs = vec![tx(ALICE, 4)];
    let outcome = settle_account(
        vec![result(1)],
        &txs,
        cancun(),
        ALICE,
        &history(vec![(0, sends(1))]),
        lazy(100, 7, NO_CODE),
        &Vec::new(),
    );
    assert_eq!(
        outcome,
        Err(ParallelExecutorError::NonceMismatch { tx_idx: 0, tx_nonce: 4, executed_nonce: 7 })
    );
}

#[test]
fn caller_without_a_nonce_is_unreachable() {
    let txs = vec![tx(ALICE, 0)];
    let outcome = settle_account(
        vec![result(1)],
        &txs,
        cancun(),
        ALICE,
        &history(vec![(0, receives(1))]),
        lazy(100, 0, NO_CODE),
        &Vec::new(),
    );
    assert_eq!(outcome, Err(ParallelExecutorError::UnreachableError));
}

#[test]
fn half_of_an_address_does_not_make_a_caller() {
    for caller in [(ALICE.0, BOB.1), (BOB.0 + 1, ALICE.1)] {
        let txs = vec![tx(caller, 99)];
        let outcome = settle_account(
            vec![result(1)],
            &txs,
            cancun(),
            ALICE,
            &history(vec![(0, receives(1))]),
            lazy(100, 0, NO_CODE),
            &Vec::new(),
        );
        assert!(outcome.is_ok());
    }
}

#[test]
fn known_account_keeps_all_but_balance_and_nonce() {
    let txs = vec![tx(BOB, 0)];
    let mut before = result(1);
    before.state.insert(
        ALICE,
        Account {
            info: AccountInfo {
                balance: word(1),
                nonce: 6,
                code_hash: CODE_HASH,
                code: Some(vec![7]),
            },
            transaction_id: 3,
            storage: vec![StorageSlot {
                key: word(1),
                original_value: word(2),
                present_value: word(3),
                transaction_id: 3,
                is_cold: true,
            }],
            status: AccountStatus { bits: 16 },
        },
    );
    before.state.insert(BOB, new_account(5, 5, NO_CODE, Vec::new()));
    let results = settle_account(
        vec![before],
        &txs,
        cancun(),
        ALICE,
        &history(vec![(0, receives(10))]),
        lazy(30, 8, NO_CODE),
        &vec![1],
    )
    .unwrap();
    let account = results[0].state.get(&ALICE).unwrap();
    assert_eq!(account.info.balance, word(40));
    assert_eq!(account.info.nonce, 8);
    assert_eq!(account.info.code_hash, CODE_HASH);
    assert_eq!(account.info.code, Some(vec![7]));
    assert_eq!(account.transaction_id, 3);
    assert_eq!(account.storage.len(), 1);
    assert_eq!(account.status, AccountStatus { bits: 16 });
    assert_eq!(results[0].state.get(&BOB), Some(&new_account(5, 5, NO_CODE, Vec::new())));
}

#[test]
fn empty_account_is_left_out_from_spurious_dragon_on() {
    let settle = |spec: SpecId, code_hash: B256| {
        settle_account(
            vec![result(1)],
            &vec![tx(BOB, 0)],
            spec,
            ALICE,
            &history(vec![(0, receives(0))]),
            lazy(0, 0, code_hash),
            &Vec::new(),
        )
        .unwrap()
    };
    assert!(settle(cancun(), NO_CODE)[0].state.is_empty());
    assert_eq!(
        settle(homestead(), NO_CODE)[0].state.get(&ALICE),
        Some(&new_account(0, 0, NO_CODE, Vec::new()))
    );
    assert_eq!(
        settle(cancun(), CODE_HASH)[0].state.get(&ALICE),
        Some(&new_account(0, 0, CODE_HASH, Vec::new()))
    );
}

#[test]
fn history_that_cannot_be_evaluated_is_told() {
    let txs = vec![tx(BOB, 0)];
    let start = lazy(100, 0, NO_CODE);
    assert!(can_settle(&txs, ALICE, &history(Vec::new()), start));
    assert!(can_settle(&txs, ALICE, &history(vec![(0, receives(1))]), start));
    assert!(!can_settle(&txs, ALICE, &history(vec![(1, receives(1))]), start));
    assert!(!can_settle(&txs, ALICE, &history(vec![(0, Entry::Estimate)]), start));
    assert!(!can_settle(
        &txs,
        ALICE,
        &history(vec![(0, Entry::Data(0, LocationValue::Other))]),
        start
    ));
    assert!(!can_settle(&txs, ALICE, &history(vec![(0, becomes(0, 0))]), start));
    let full = lazy(100, u64::MAX, NO_CODE);
    assert!(!can_settle(&txs, ALICE, &history(vec![(0, sends(1))]), full));
}

#[test]
fn history_is_not_followed_beyond_an_error() {
    let txs = vec![tx(ALICE, 0)];
    let history = history(vec![(0, sends(1)), (5, Entry::Estimate)]);
    assert!(can_settle(&txs, ALICE, &history, lazy(1, 0, NO_CODE)));
    assert!(!can_settle(&txs, ALICE, &history, lazy(100, 0, NO_CODE)));
}

#[test]
fn settling_in_either_order_comes_to_the_same() {
    let txs = vec![tx(ALICE, 0), tx(BOB, 0)];
    let alice = history(vec![(0, sends(3)), (1, receives(2))]);
    let bob = history(vec![(0, receives(3)), (1, sends(2))]);
    let start = lazy(100, 0, NO_CODE);
    let code = Vec::new();
    let settle = |results: Vec<TxExecutionResult>, address: Address, history: &WriteHistory| {
        settle_account(results, &txs, cancun(), address, history, start, &code).unwrap()
    };
    let one = settle(settle(vec![result(1), result(2)], ALICE, &alice), BOB, &bob);
    let other = settle(settle(vec![result(1), result(2)], BOB, &bob), ALICE, &alice);
    assert_eq!(one, other);
    assert_eq!(one[1].state.get(&ALICE).unwrap().info.balance, word(99));
    assert_eq!(one[1].state.get(&BOB).unwrap().info.balance, word(101));
}

#[test]
fn settling_twice_changes_nothing() {
    let txs = vec![tx(ALICE, 0)];
    let alice = history(vec![(0, sends(3))]);
    let start = lazy(100, 0, NO_CODE);
    let settle = |results: Vec<TxExecutionResult>| {
        settle_account(results, &txs, cancun(), ALICE, &alice, start, &vec![4]).unwrap()
    };
    assert_eq!(settle(settle(vec![result(1)])), settle(vec![result(1)]));
}

#[test]
fn first_entry_that_fails_gives_the_error() {
    let txs = vec![tx(BOB, 0), tx(ALICE, 3), tx(ALICE, 4)];
    let outcome = settle_account(
        vec![result(1), result(1), result(1)],
        &txs,
        cancun(),
        ALICE,
        &history(vec![(0, receives(1)), (1, sends(1)), (2, sends(1))]),
        lazy(100, 9, NO_CODE),
        &Vec::new(),
    );
    assert_eq!(
        outcome,
        Err(ParallelExecutorError::NonceMismatch { tx_idx: 1, tx_nonce: 3, executed_nonce: 9 })
    );
}

#[test]
fn nonces_reach_the_last_one() {
    let txs = vec![tx(ALICE, u64::MAX - 1)];
    let start = lazy(100, u64::MAX - 1, NO_CODE);
    let alice = history(vec![(0, sends(1))]);
    assert!(can_settle(&txs, ALICE, &alice, start));
    let results =
        settle_account(vec![result(1)], &txs, cancun(), ALICE, &alice, start, &Vec::new()).unwrap();
    assert_eq!(results[0].state.get(&ALICE).unwrap().info.nonce, u64::MAX);
}
