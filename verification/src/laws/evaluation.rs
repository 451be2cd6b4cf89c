//! What each entry of a history makes of an account, when an evaluation succeeds, and
//! what becomes of the account in the results.

use crate::account::{AccountInfo, Bytecode};
use crate::lazy::{Evaluation, LazyAccountView};
use crate::mv_memory::{Entry, LocationValue};
use crate::op_executor::{BlockEvent, ExecutorView, StageView};
use crate::primitives::{Address, SpecId, TxIdx, U256};
use crate::result::{ErrorView, ExecutionErrorView, TxResultView};
use crate::transaction::TxEnv;
use vstd::prelude::*;

verus! {

/// The most that a transaction can cost: all its gas at its price, its value, and the
/// gas of its blobs at its highest price, each blob being of 131072 gas. The gas of
/// blobs can be counted as long as it fits in 64 bits.
pub proof fn law_cost(tx: TxEnv)
    ensures
        tx.cost() == tx.gas_limit * tx.gas_price + tx.value@ + (131072 * tx.blob_hashes@.len())
            * tx.max_fee_per_blob_gas,
        tx.blob_gas_fits() <==> 131072 * tx.blob_hashes@.len() <= 0xffff_ffff_ffff_ffff,
{
}

/// Amounts stop at the largest one of 256 bits, and at zero.
pub proof fn law_amounts_stop(a: nat, b: nat)
    ensures
        ({
            let max: nat =
                0xffff_ffff_ffff_ffff_ffff_ffff_ffff_ffff_ffff_ffff_ffff_ffff_ffff_ffff_ffff_ffffnat;
            &&& a <= max ==> crate::primitives::saturate(a) == a
            &&& a > max ==> crate::primitives::saturate(a) == max
            &&& a >= b ==> crate::primitives::monus(a, b) + b == a
            &&& a < b ==> crate::primitives::monus(a, b) == 0
        }),
{
}

/// A 256-bit amount is the number that its limbs spell, the least significant first.
pub proof fn law_limbs(amount: U256)
    ensures
        amount@ == amount.limbs@[0] + 0x1_0000_0000_0000_0000 * (amount.limbs@[1]
            + 0x1_0000_0000_0000_0000 * (amount.limbs@[2] + 0x1_0000_0000_0000_0000
            * amount.limbs@[3])),
{
}

/// The rules of Spurious Dragon come with the hardfork of number 5, and the newest
/// hardfork has number 19.
pub proof fn law_hardfork_numbers()
    ensures
        crate::primitives::SPURIOUS_DRAGON == 5,
        crate::primitives::NEWEST_SPEC == 19,
{
}

/// An account starts a block as it was before; a transaction without an entry leaves
/// it as it is; and an evaluation that has failed stays failed.
pub proof fn law_evaluation_between_entries(eval: Evaluation, tx_idx: TxIdx)
    ensures
        eval.after(0) == Ok::<LazyAccountView, ErrorView>(eval.start),
        !eval.history.contains_key(tx_idx) ==> eval.after((tx_idx + 1) as nat) == eval.after(
            tx_idx as nat,
        ),
        eval.after(tx_idx as nat) is Err ==> eval.after((tx_idx + 1) as nat) == eval.after(
            tx_idx as nat,
        ),
{
}

/// An absolute value becomes the account's balance and nonce, whatever they were. The
/// account's own transaction has to leave it with the nonce behind its own; where it
/// does not, that is the error.
pub proof fn law_absolute_entry(
    eval: Evaluation,
    tx_idx: TxIdx,
    before: LazyAccountView,
    incarnation: usize,
    info: AccountInfo,
)
    requires
        eval.after(tx_idx as nat) == Ok::<LazyAccountView, ErrorView>(before),
        eval.history.contains_key(tx_idx),
        eval.history[tx_idx] == Entry::Data(incarnation, LocationValue::Basic(info)),
    ensures
        ({
            let tx = eval.txs[tx_idx as int];
            let after = eval.after((tx_idx + 1) as nat);
            let changed = LazyAccountView {
                balance: info.balance@,
                nonce: info.nonce as nat,
                code_hash: before.code_hash,
            };
            &&& tx.caller != eval.address ==> after == Ok::<LazyAccountView, ErrorView>(changed)
            &&& tx.caller == eval.address ==> {
                &&& info.nonce == tx.nonce + 1 ==> after == Ok::<LazyAccountView, ErrorView>(changed)
                &&& info.nonce == 0 ==> after == Err::<LazyAccountView, ErrorView>(
                    ErrorView::Unreachable,
                )
                &&& info.nonce != 0 && info.nonce != tx.nonce + 1 ==> after == Err::<
                    LazyAccountView,
                    ErrorView,
                >(
                    ErrorView::NonceMismatch {
                        tx_idx,
                        tx_nonce: tx.nonce,
                        executed_nonce: (info.nonce - 1) as u64,
                    },
                )
            }
        }),
{
}

/// An amount that an account receives raises its balance by just as much, or to the
/// largest amount; its nonce stays. The account's own transaction has to find it with
/// the nonce behind its own; where it does not, that is the error.
pub proof fn law_recipient_entry(
    eval: Evaluation,
    tx_idx: TxIdx,
    before: LazyAccountView,
    incarnation: usize,
    amount: U256,
)
    requires
        eval.after(tx_idx as nat) == Ok::<LazyAccountView, ErrorView>(before),
        eval.history.contains_key(tx_idx),
        eval.history[tx_idx] == Entry::Data(incarnation, LocationValue::LazyRecipient(amount)),
    ensures
        ({
            let max: nat =
                0xffff_ffff_ffff_ffff_ffff_ffff_ffff_ffff_ffff_ffff_ffff_ffff_ffff_ffff_ffff_ffffnat;
            let tx = eval.txs[tx_idx as int];
            let after = eval.after((tx_idx + 1) as nat);
            let changed = LazyAccountView {
                balance: if before.balance + amount@ <= max {
                    before.balance + amount@
                } else {
                    max
                },
                nonce: before.nonce,
                code_hash: before.code_hash,
            };
            &&& tx.caller != eval.address ==> after == Ok::<LazyAccountView, ErrorView>(changed)
            &&& tx.caller == eval.address ==> {
                &&& before.nonce == tx.nonce + 1 ==> after == Ok::<LazyAccountView, ErrorView>(changed)
                &&& before.nonce == 0 ==> after == Err::<LazyAccountView, ErrorView>(
                    ErrorView::Unreachable,
                )
                &&& before.nonce != 0 && before.nonce != tx.nonce + 1 ==> after == Err::<
                    LazyAccountView,
                    ErrorView,
                >(
                    ErrorView::NonceMismatch {
                        tx_idx,
                        tx_nonce: tx.nonce,
                        executed_nonce: (before.nonce - 1) as u64,
                    },
                )
            }
        }),
{
}

/// A transaction that spends needs a balance that covers the most that it can cost,
/// or the largest amount where the cost is beyond that; where the balance does not,
/// both are told as the error. Else the balance falls by just what was spent, to zero
/// at the least, and the nonce rises by one; and where the transaction is the
/// account's own, that nonce has to be the one behind its own.
pub proof fn law_sender_entry(
    eval: Evaluation,
    tx_idx: TxIdx,
    before: LazyAccountView,
    incarnation: usize,
    amount: U256,
)
    requires
        eval.after(tx_idx as nat) == Ok::<LazyAccountView, ErrorView>(before),
        eval.history.contains_key(tx_idx),
        eval.history[tx_idx] == Entry::Data(incarnation, LocationValue::LazySender(amount)),
    ensures
        ({
            let max: int =
                0xffff_ffff_ffff_ffff_ffff_ffff_ffff_ffff_ffff_ffff_ffff_ffff_ffff_ffff_ffff_ffffint;
            let tx = eval.txs[tx_idx as int];
            let cost = tx.gas_limit * tx.gas_price + tx.value@ + (131072
                * tx.blob_hashes@.len()) * tx.max_fee_per_blob_gas;
            let fee = if cost <= max {
                cost
            } else {
                max
            };
            let after = eval.after((tx_idx + 1) as nat);
            let changed = LazyAccountView {
                balance: if before.balance >= amount@ {
                    (before.balance - amount@) as nat
                } else {
                    0
                },
                nonce: before.nonce + 1,
                code_hash: before.code_hash,
            };
            &&& before.balance < fee ==> after == Err::<LazyAccountView, ErrorView>(
                ErrorView::Execution(
                    ExecutionErrorView::LackOfFundForMaxFee {
                        balance: before.balance,
                        fee: fee as nat,
                    },
                ),
            )
            &&& before.balance >= fee ==> {
                &&& tx.caller != eval.address || before.nonce == tx.nonce ==> after == Ok::<
                    LazyAccountView,
                    ErrorView,
                >(changed)
                &&& tx.caller == eval.address && before.nonce != tx.nonce ==> after == Err::<
                    LazyAccountView,
                    ErrorView,
                >(
                    ErrorView::NonceMismatch {
                        tx_idx,
                        tx_nonce: tx.nonce,
                        executed_nonce: before.nonce as u64,
                    },
                )
            }
        }),
{
    law_cost(eval.txs[tx_idx as int]);
}

/// Whether an entry can stand: it holds the value of an account, a transaction that
/// spends finds a balance that covers the most that it can cost, and the account's own
/// transaction leaves it with the nonce behind its own.
pub open spec fn can_stand(
    before: LazyAccountView,
    entry: Entry,
    address: Address,
    tx: TxEnv,
) -> bool {
    match entry {
        Entry::Data(_, LocationValue::Basic(info)) => tx.caller == address ==> info.nonce
            == tx.nonce + 1,
        Entry::Data(_, LocationValue::LazyRecipient(_)) => tx.caller == address ==> before.nonce
            == tx.nonce + 1,
        Entry::Data(_, LocationValue::LazySender(_)) => {
            &&& before.balance >= tx.gas_limit * tx.gas_price + tx.value@ + (131072
                * tx.blob_hashes@.len()) * tx.max_fee_per_blob_gas
            &&& tx.caller == address ==> before.nonce == tx.nonce
        },
        _ => false,
    }
}

/// An evaluation in which every entry can stand succeeds.
pub proof fn law_evaluation_succeeds(eval: Evaluation, n: nat)
    requires
        n <= usize::MAX,
        forall|i: TxIdx|
            i < n && #[trigger] eval.reaches(i) ==> can_stand(
                eval.after(i as nat)->Ok_0,
                eval.history[i],
                eval.address,
                eval.txs[i as int],
            ),
    ensures
        eval.after(n) is Ok,
    decreases n,
{
    if n > 0 {
        let i = (n - 1) as usize;
        law_evaluation_succeeds(eval, (n - 1) as nat);
        let before = eval.after(i as nat)->Ok_0;
        law_evaluation_between_entries(eval, i);
        if eval.history.contains_key(i) {
            assert(eval.reaches(i));
            assert(can_stand(before, eval.history[i], eval.address, eval.txs[i as int]));
            match eval.history[i] {
                Entry::Data(incarnation, LocationValue::Basic(info)) => {
                    law_absolute_entry(eval, i, before, incarnation, info);
                },
                Entry::Data(incarnation, LocationValue::LazyRecipient(amount)) => {
                    law_recipient_entry(eval, i, before, incarnation, amount);
                },
                Entry::Data(incarnation, LocationValue::LazySender(amount)) => {
                    law_sender_entry(eval, i, before, incarnation, amount);
                },
                _ => {},
            }
        }
    }
}

/// An evaluation fails at one entry, which its transaction is told of, for one of
/// three reasons: a transaction that spends found a balance below the most that it can
/// cost, the account's own transaction left it without a nonce, or with another nonce
/// than the one behind its own.
pub proof fn law_evaluation_fails(eval: Evaluation, n: nat) -> (first: TxIdx)
    requires
        n <= usize::MAX,
        eval.evaluable(),
        eval.after(n) is Err,
    ensures
        first < n,
        eval.reaches(first),
        ({
            let before = eval.after(first as nat)->Ok_0;
            let tx = eval.txs[first as int];
            let nonce: int = match eval.history[first] {
                Entry::Data(_, LocationValue::Basic(info)) => info.nonce as int,
                Entry::Data(_, LocationValue::LazySender(_)) => (before.nonce + 1) as int,
                _ => before.nonce as int,
            };
            match eval.after(n)->Err_0 {
                ErrorView::Execution(
                    ExecutionErrorView::LackOfFundForMaxFee { balance, fee },
                ) => {
                    &&& eval.history[first] matches Entry::Data(_, LocationValue::LazySender(_))
                    &&& balance == before.balance
                    &&& balance < fee
                    &&& fee <= tx.gas_limit * tx.gas_price + tx.value@ + (131072
                        * tx.blob_hashes@.len()) * tx.max_fee_per_blob_gas
                },
                ErrorView::Unreachable => tx.caller == eval.address && nonce == 0,
                ErrorView::NonceMismatch { tx_idx, tx_nonce, executed_nonce } => {
                    &&& tx.caller == eval.address
                    &&& tx_idx == first
                    &&& tx_nonce == tx.nonce
                    &&& nonce != tx.nonce + 1
                    &&& nonce <= u64::MAX ==> executed_nonce == nonce - 1
                },
                _ => false,
            }
        }),
    decreases n,
{
    let i = (n - 1) as usize;
    if eval.after(i as nat) is Err {
        law_evaluation_fails(eval, i as nat)
    } else {
        let before = eval.after(i as nat)->Ok_0;
        law_evaluation_between_entries(eval, i);
        assert(eval.reaches(i));
        assert(eval.evaluable_at(i));
        match eval.history[i] {
            Entry::Data(incarnation, LocationValue::Basic(info)) => {
                law_absolute_entry(eval, i, before, incarnation, info);
            },
            Entry::Data(incarnation, LocationValue::LazyRecipient(amount)) => {
                law_recipient_entry(eval, i, before, incarnation, amount);
            },
            Entry::Data(incarnation, LocationValue::LazySender(amount)) => {
                law_sender_entry(eval, i, before, incarnation, amount);
            },
            _ => {},
        }
        i
    }
}

/// Whether an entry holds a value of an account that can be evaluated: an absolute one
/// that is not empty, an amount received, or an amount spent where the gas of the blobs
/// can be counted, and so can the nonce unless the balance falls short.
pub open spec fn can_be_evaluated(before: LazyAccountView, entry: Entry, tx: TxEnv) -> bool {
    let max: int =
        0xffff_ffff_ffff_ffff_ffff_ffff_ffff_ffff_ffff_ffff_ffff_ffff_ffff_ffff_ffff_ffffint;
    match entry {
        Entry::Data(_, LocationValue::Basic(info)) => info.balance@ > 0 || info.nonce > 0,
        Entry::Data(_, LocationValue::LazyRecipient(_)) => true,
        Entry::Data(_, LocationValue::LazySender(_)) => {
            &&& 131072 * tx.blob_hashes@.len() <= u64::MAX
            &&& before.nonce >= u64::MAX ==> {
                &&& before.balance < tx.gas_limit * tx.gas_price + tx.value@ + (131072
                    * tx.blob_hashes@.len()) * tx.max_fee_per_blob_gas
                &&& before.balance < max
            }
        },
        _ => false,
    }
}

/// A history can be evaluated if and only if each of its entries that the evaluation
/// gets to belongs to a transaction of the block and holds a value that can be. The
/// evaluation gets to an entry if nothing before it failed.
pub proof fn law_evaluable(eval: Evaluation, tx_idx: TxIdx)
    ensures
        eval.reaches(tx_idx) <==> eval.history.contains_key(tx_idx) && eval.after(
            tx_idx as nat,
        ) is Ok,
        eval.evaluable() <==> forall|i: TxIdx| #[trigger]
            eval.reaches(i) ==> i < eval.txs.len() && can_be_evaluated(
                eval.after(i as nat)->Ok_0,
                eval.history[i],
                eval.txs[i as int],
            ),
{
    assert forall|i: TxIdx| #[trigger] eval.reaches(i) implies (eval.evaluable_at(i) <==> i
        < eval.txs.len() && can_be_evaluated(
        eval.after(i as nat)->Ok_0,
        eval.history[i],
        eval.txs[i as int],
    )) by {
        law_cost(eval.txs[i as int]);
    }
}

/// Once the code of an account was read, and its evaluation came to no error, the
/// account is in the result of every transaction that wrote to it, with the balance
/// and the nonce that the transaction left it with. An account that was there keeps
/// all else; a new one has the account's code and code hash, no storage, and is
/// touched and nothing else. An empty account is not put in from Spurious Dragon on.
/// Other results, other accounts and all receipts stay as they are.
pub proof fn law_account_is_settled(
    executor: ExecutorView,
    txs: Seq<TxEnv>,
    spec: SpecId,
    results: Seq<TxResultView>,
    eval: Evaluation,
    code: Bytecode,
    i: int,
    address: Address,
)
    requires
        eval.txs == txs,
        eval.after(txs.len()) is Ok,
        0 <= i < results.len(),
    ensures
        ({
            let account = eval.after((i + 1) as nat)->Ok_0;
            let is_left_out = {
                &&& spec.number() >= 5
                &&& account.balance == 0
                &&& account.nonce == 0
                &&& account.code_hash == crate::primitives::keccak_empty_hash()
            };
            &&& crate::op_executor::stage_next(
                executor,
                txs,
                spec,
                StageView::ReadingCode {
                    results,
                    address: eval.address,
                    history: eval.history,
                    start: eval.start,
                },
                BlockEvent::CodeRead(Ok(code)),
            ) matches StageView::Settling { results: settled }
            &&& settled.len() == results.len()
            &&& settled[i].receipt == results[i].receipt
            &&& !eval.history.contains_key(i as usize) || address != eval.address || is_left_out
                ==> {
                &&& settled[i].state.contains_key(address) <==> results[i].state.contains_key(
                    address,
                )
                &&& settled[i].state.contains_key(address) ==> settled[i].state[address]
                    == results[i].state[address]
            }
            &&& eval.history.contains_key(i as usize) && address == eval.address && !is_left_out
                ==> {
                &&& settled[i].state.contains_key(address)
                &&& settled[i].state[address].info.balance == account.balance
                &&& settled[i].state[address].info.nonce == account.nonce
                &&& results[i].state.contains_key(address) ==> {
                    let known = results[i].state[address];
                    &&& settled[i].state[address].info.code_hash == known.info.code_hash
                    &&& settled[i].state[address].info.code == known.info.code
                    &&& settled[i].state[address].transaction_id == known.transaction_id
                    &&& settled[i].state[address].storage == known.storage
                    &&& settled[i].state[address].status == known.status
                }
                &&& !results[i].state.contains_key(address) ==> {
                    &&& settled[i].state[address].info.code_hash == account.code_hash
                    &&& settled[i].state[address].info.code == Some(code@)
                    &&& settled[i].state[address].transaction_id == 0
                    &&& settled[i].state[address].storage.len() == 0
                    &&& settled[i].state[address].status.bits == 4
                }
            }
        }),
{
}

} // verus!
