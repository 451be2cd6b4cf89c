//! The gas of a block, counted up transaction by transaction.

use crate::result::{Receipt, TxExecutionResult, TxResultView};
use vstd::prelude::*;

verus! {

/// The gas that the first `n` transactions used.
pub open spec fn gas_total(results: Seq<TxResultView>, n: nat) -> nat
    decreases n,
{
    if n == 0 {
        0
    } else {
        gas_total(results, (n - 1) as nat) + results[n - 1].receipt.cumulative_gas_used as nat
    }
}

/// `gas`, or the largest 64-bit count where `gas` is beyond it.
pub open spec fn gas_count(gas: nat) -> u64 {
    if gas <= u64::MAX {
        gas as u64
    } else {
        u64::MAX
    }
}

/// A result whose receipt has the given count of gas.
pub open spec fn with_gas(result: TxResultView, gas: u64) -> TxResultView {
    TxResultView { receipt: Receipt { cumulative_gas_used: gas, ..result.receipt }, ..result }
}

/// The results of a block from those of its transactions alone: each receipt
/// counts the gas of the block up to its transaction.
pub open spec fn with_cumulative_gas(results: Seq<TxResultView>) -> Seq<TxResultView> {
    Seq::new(
        results.len(),
        |i: int| with_gas(results[i], gas_count(gas_total(results, (i + 1) as nat))),
    )
}

/// Adds the gas of one transaction to the gas `used` before it, and records the
/// sum in the transaction's receipt.
pub fn accumulate_gas(result: TxExecutionResult, used: u64) -> (r: (TxExecutionResult, u64))
    ensures
        r.1 == gas_count((used + result.receipt.cumulative_gas_used) as nat),
        r.0@ == with_gas(result@, r.1),
        r.0.receipt.tx_type == result.receipt.tx_type,
        r.0.receipt.success == result.receipt.success,
        r.0.receipt.logs == result.receipt.logs,
        r.0.receipt.cumulative_gas_used == r.1,
        r.0.state == result.state,
        used + result.receipt.cumulative_gas_used <= u64::MAX ==> r.1 == used
            + result.receipt.cumulative_gas_used,
        used + result.receipt.cumulative_gas_used > u64::MAX ==> r.1 == u64::MAX,
{
    let mut result = result;
    let used: u64 = used.saturating_add(result.receipt.cumulative_gas_used);
    result.receipt.cumulative_gas_used = used;
    (result, used)
}

} // verus!
