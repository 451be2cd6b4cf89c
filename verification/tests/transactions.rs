use metis_pe::primitives::{SpecId, B256, U256, NEWEST_SPEC, SPURIOUS_DRAGON};
use metis_pe::transaction::{TxEnv, GAS_PER_BLOB};

fn word(n: u64) -> U256 {
    U256 { limbs: [n, 0, 0, 0] }
}

fn transaction() -> TxEnv {
    TxEnv {
        tx_type: 2,
        caller: (0, 1),
        gas_limit: 21_000,
        gas_price: 7,
        value: word(1_000),
        nonce: 0,
        blob_hashes: Vec::new(),
        max_fee_per_blob_gas: 0,
    }
}

#[test]
fn max_fee_is_gas_at_its_price_and_the_value() {
    assert_eq!(transaction().max_fee(), word(148_000));
}

#[test]
fn max_fee_counts_blob_gas() {
    let mut tx = transaction();
    tx.tx_type = 3;
    tx.blob_hashes = vec![B256 { hi: 1, lo: 2 }, B256 { hi: 3, lo: 4 }];
    tx.max_fee_per_blob_gas = 5;
    assert!(tx.has_countable_blobs());
    assert_eq!(GAS_PER_BLOB, revm::primitives::eip4844::GAS_PER_BLOB);
    assert_eq!(tx.max_fee(), word(148_000 + 2 * 131_072 * 5));
}

#[test]
fn max_fee_uses_more_than_one_limb() {
    let mut tx = transaction();
    tx.gas_limit = u64::MAX;
    tx.gas_price = u128::MAX;
    tx.value = word(0);
    let gas_fee = revm::primitives::U256::from(u64::MAX) * revm::primitives::U256::from(u128::MAX);
    assert_eq!(tx.max_fee().limbs, gas_fee.into_limbs());
    assert_eq!(tx.max_fee().limbs[2], u64::MAX - 1);
}

#[test]
fn max_fee_stops_at_the_largest_amount() {
    let mut tx = transaction();
    tx.value = U256 { limbs: [u64::MAX; 4] };
    assert_eq!(tx.max_fee(), U256 { limbs: [u64::MAX; 4] });
}

#[test]
fn max_fee_just_below_the_largest_amount() {
    let mut tx = transaction();
    tx.gas_limit = 1;
    tx.gas_price = 1;
    tx.value = U256 { limbs: [u64::MAX - 2, u64::MAX, u64::MAX, u64::MAX] };
    assert_eq!(tx.max_fee(), U256 { limbs: [u64::MAX - 1, u64::MAX, u64::MAX, u64::MAX] });
}

#[test]
fn hardforks_are_numbered_as_in_the_evm() {
    assert_eq!(revm::primitives::hardfork::SpecId::SPURIOUS_DRAGON as u8, SPURIOUS_DRAGON);
    for number in 0..=u8::MAX {
        let known = revm::primitives::hardfork::SpecId::try_from_u8(number);
        assert_eq!(SpecId::new(number).is_some(), known.is_some());
        assert_eq!(SpecId::new(number).is_some(), number <= NEWEST_SPEC);
    }
}

#[test]
fn spurious_dragon_holds_from_its_own_hardfork_on() {
    assert!(!SpecId::new(SPURIOUS_DRAGON - 1).unwrap().is_spurious_dragon());
    assert!(SpecId::new(SPURIOUS_DRAGON).unwrap().is_spurious_dragon());
    assert!(SpecId::new(NEWEST_SPEC).unwrap().is_spurious_dragon());
    assert!(!SpecId::new(0).unwrap().is_spurious_dragon());
}
