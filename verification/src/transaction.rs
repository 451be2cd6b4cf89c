//! Transactions, as far as block execution reads them.

use crate::primitives::{Address, B256, U256};
use vstd::prelude::*;

verus! {

/// Gas that one blob stands for.
pub const GAS_PER_BLOB: u64 = 0x2_0000;

/// The kind of a transaction's envelope.
#[derive(Clone, Copy, Debug, PartialEq, Eq, Structural)]
pub enum TxType {
    Legacy,
    Eip2930,
    Eip1559,
    Eip4844,
    Eip7702,
}

/// The kind that a type byte stands for, if it stands for one.
pub open spec fn tx_type_of(byte: u8) -> Option<TxType> {
    if byte == 0 {
        Some(TxType::Legacy)
    } else if byte == 1 {
        Some(TxType::Eip2930)
    } else if byte == 2 {
        Some(TxType::Eip1559)
    } else if byte == 3 {
        Some(TxType::Eip4844)
    } else if byte == 4 {
        Some(TxType::Eip7702)
    } else {
        None
    }
}

/// `TxType::try_from` of `alloy_consensus` on a type byte: the bytes 0 to 4 are
/// the five kinds in order, and every other byte is refused.
#[verifier::external_body]
pub(crate) fn tx_type_from(byte: u8) -> (r: Option<TxType>)
    ensures
        r == tx_type_of(byte),
{
    match alloy_consensus::TxType::try_from(byte) {
        Ok(alloy_consensus::TxType::Legacy) => Some(TxType::Legacy),
        Ok(alloy_consensus::TxType::Eip2930) => Some(TxType::Eip2930),
        Ok(alloy_consensus::TxType::Eip1559) => Some(TxType::Eip1559),
        Ok(alloy_consensus::TxType::Eip4844) => Some(TxType::Eip4844),
        Ok(alloy_consensus::TxType::Eip7702) => Some(TxType::Eip7702),
        Err(_) => None,
    }
}

/// A transaction to execute.
#[derive(Debug, PartialEq, Eq)]
pub struct TxEnv {
    /// The envelope's type byte.
    pub tx_type: u8,
    /// The account that signed the transaction.
    pub caller: Address,
    /// The most gas that the transaction may use.
    pub gas_limit: u64,
    /// The price of one unit of gas.
    pub gas_price: u128,
    /// The amount that the transaction transfers.
    pub value: U256,
    /// The caller's nonce at which the transaction is valid.
    pub nonce: u64,
    /// The versioned hashes of the transaction's blobs.
    pub blob_hashes: Vec<B256>,
    /// The most that the caller pays for one unit of blob gas.
    pub max_fee_per_blob_gas: u128,
}

impl TxEnv {
    /// The gas of all blobs.
    pub open spec fn blob_gas(self) -> nat {
        (GAS_PER_BLOB * self.blob_hashes@.len()) as nat
    }

    /// Whether the gas of all blobs can be counted in 64 bits.
    pub open spec fn blob_gas_fits(self) -> bool {
        self.blob_gas() <= u64::MAX
    }

    /// The most that the transaction can cost its caller: all gas at its price,
    /// the value, and all blob gas at its highest price.
    pub open spec fn cost(self) -> nat {
        (self.gas_limit * self.gas_price + self.value@ + self.blob_gas()
            * self.max_fee_per_blob_gas) as nat
    }

    /// Whether the gas of all blobs can be counted in 64 bits.
    pub fn has_countable_blobs(&self) -> (r: bool)
        ensures
            r == self.blob_gas_fits(),
            r == (131072 * self.blob_hashes@.len() <= u64::MAX),
    {
        self.blob_hashes.len() as u64 <= u64::MAX / GAS_PER_BLOB
    }

    /// The most that the transaction can cost its caller, or the largest amount
    /// where the cost is beyond it.
    pub fn max_fee(&self) -> (r: U256)
        requires
            self.blob_gas_fits(),
        ensures
            r@ == crate::primitives::saturate(self.cost()),
            ({
                let cost = self.gas_limit * self.gas_price + self.value@ + (131072
                    * self.blob_hashes@.len()) * self.max_fee_per_blob_gas;
                &&& cost <= crate::primitives::u256_max() ==> r@ == cost
                &&& cost > crate::primitives::u256_max() ==> r@ == crate::primitives::u256_max()
            }),
    {
        let gas_fee = U256::from_u128(self.gas_limit as u128).saturating_mul(
            U256::from_u128(self.gas_price),
        );
        let blob_gas: u64 = total_blob_gas(&self.blob_hashes);
        let blob_fee = U256::from_u128(blob_gas as u128).saturating_mul(
            U256::from_u128(self.max_fee_per_blob_gas),
        );
        proof {
            lemma_fee_fits(self.gas_limit as nat, self.gas_price as nat);
            lemma_fee_fits(self.blob_gas(), self.max_fee_per_blob_gas as nat);
        }
        gas_fee.saturating_add(self.value).saturating_add(blob_fee)
    }
}

/// Gas counted in 64 bits at a price of 128 bits comes to an amount of at most
/// 192 bits.
proof fn lemma_fee_fits(gas: nat, price: nat)
    requires
        gas <= u64::MAX,
        price <= u128::MAX,
    ensures
        gas * price <= crate::primitives::u256_max(),
{
    assert(gas * price <= u64::MAX * u128::MAX) by (nonlinear_arith)
        requires
            gas <= u64::MAX,
            price <= u128::MAX,
    ;
}

/// `Transaction::total_blob_gas` of `revm::context_interface`, on a transaction
/// with these blobs: the gas of one blob times their number.
#[verifier::external_body]
fn total_blob_gas(blob_hashes: &Vec<B256>) -> (r: u64)
    requires
        GAS_PER_BLOB * blob_hashes@.len() <= u64::MAX,
    ensures
        r == GAS_PER_BLOB * blob_hashes@.len(),
{
    let mut tx = revm::context::TxEnv::default();
    tx.blob_hashes = blob_hashes.iter().map(
        |hash|
            revm::primitives::B256::from_slice(
                &[hash.hi.to_be_bytes(), hash.lo.to_be_bytes()].concat(),
            ),
    ).collect();
    revm::context_interface::Transaction::total_blob_gas(&tx)
}

} // verus!
