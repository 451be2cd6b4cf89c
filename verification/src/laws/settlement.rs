//! What holds of the evaluation of lazily updated accounts.

use crate::account::{AccountInfoView, AccountView};
use crate::lazy::{Evaluation, LazyAccountView};
use crate::mv_memory::{Entry, LocationValue};
use crate::primitives::{Address, SpecId, TxIdx, U256};
use crate::result::{ErrorView, TxResultView};
use crate::transaction::TxEnv;
use vstd::prelude::*;

verus! {

/// Whether a balance is an amount and a nonce a 64-bit count.
pub open spec fn in_range(account: LazyAccountView) -> bool {
    account.balance <= crate::primitives::u256_max() && account.nonce <= u64::MAX
}

/// An account that starts with a balance and a nonce in range has them in range
/// after every transaction, and keeps the hash of its code.
pub proof fn law_evaluation_in_range(eval: Evaluation, n: nat)
    requires
        in_range(eval.start),
        eval.evaluable(),
        n <= usize::MAX,
        eval.after(n) is Ok,
    ensures
        in_range(eval.after(n)->Ok_0),
        eval.after(n)->Ok_0.code_hash == eval.start.code_hash,
    decreases n,
{
    if n > 0 {
        let i = (n - 1) as usize;
        law_evaluation_in_range(eval, (n - 1) as nat);
        if eval.history.contains_key(i) {
            assert(eval.reaches(i));
            assert(eval.evaluable_at(i));
            if let Entry::Data(_, LocationValue::Basic(info)) = eval.history[i] {
                crate::primitives::law_u256_bound(info.balance);
            }
        }
    }
}

/// An evaluation that gets to a transaction got to every one before it.
pub(crate) proof fn lemma_after_prefix(eval: Evaluation, m: nat, n: nat)
    requires
        m <= n,
        eval.after(n) is Ok,
    ensures
        eval.after(m) is Ok,
    decreases n,
{
    if m < n {
        lemma_after_prefix(eval, m, (n - 1) as nat);
    }
}

/// In an evaluation that succeeds, each transaction of the account's own that
/// wrote to it left it with the nonce after the transaction's own nonce.
pub proof fn law_caller_nonce(eval: Evaluation, tx_idx: TxIdx)
    requires
        eval.after(eval.txs.len()) is Ok,
        eval.evaluable(),
        tx_idx < eval.txs.len(),
        eval.history.contains_key(tx_idx),
        eval.txs[tx_idx as int].caller == eval.address,
    ensures
        eval.after((tx_idx + 1) as nat)->Ok_0.nonce == eval.txs[tx_idx as int].nonce + 1,
{
    lemma_after_prefix(eval, (tx_idx + 1) as nat, eval.txs.len());
    assert(eval.reaches(tx_idx));
    assert(eval.evaluable_at(tx_idx));
}

/// In an evaluation that succeeds, a transaction that spends found a balance that
/// covers the most that it can cost; it lowered the balance by what it spent, and
/// raised the nonce by one.
pub proof fn law_sender_pays(eval: Evaluation, tx_idx: TxIdx, incarnation: usize, amount: U256)
    requires
        eval.after(eval.txs.len()) is Ok,
        tx_idx < eval.txs.len(),
        eval.history.contains_key(tx_idx),
        eval.history[tx_idx] == Entry::Data(incarnation, LocationValue::LazySender(amount)),
    ensures
        ({
            let before = eval.after(tx_idx as nat)->Ok_0;
            let after = eval.after((tx_idx + 1) as nat)->Ok_0;
            &&& before.balance >= crate::primitives::saturate(eval.txs[tx_idx as int].cost())
            &&& after.balance == crate::primitives::monus(before.balance, amount@)
            &&& after.nonce == before.nonce + 1
        }),
{
    lemma_after_prefix(eval, (tx_idx + 1) as nat, eval.txs.len());
}

/// The amounts that the first `n` transactions brought to an account.
pub open spec fn received(history: Map<TxIdx, Entry>, n: nat) -> nat
    decreases n,
{
    if n == 0 {
        0
    } else {
        received(history, (n - 1) as nat) + (if history.contains_key((n - 1) as usize) {
            match history[(n - 1) as usize] {
                Entry::Data(_, LocationValue::LazyRecipient(amount)) => amount@,
                _ => 0,
            }
        } else {
            0
        })
    }
}

/// Whether all that an account did in a block was to receive amounts.
pub open spec fn only_receives(history: Map<TxIdx, Entry>) -> bool {
    forall|i: TxIdx| #[trigger]
        history.contains_key(i) ==> (history[i] matches Entry::Data(
            _,
            LocationValue::LazyRecipient(_),
        ))
}

/// An account that only receives, and calls no transaction that pays it, has
/// after each transaction what it had before the block and all that it received
/// since, or the largest amount where that is beyond it; its nonce stays.
pub proof fn law_recipient_accumulates(eval: Evaluation, n: nat)
    requires
        eval.start.balance <= crate::primitives::u256_max(),
        only_receives(eval.history),
        forall|i: TxIdx| #[trigger]
            eval.history.contains_key(i) ==> eval.txs[i as int].caller != eval.address,
        n <= usize::MAX,
    ensures
        eval.after(n) == Ok::<LazyAccountView, ErrorView>(
            LazyAccountView {
                balance: crate::primitives::saturate(
                    eval.start.balance + received(eval.history, n),
                ),
                ..eval.start
            },
        ),
    decreases n,
{
    if n > 0 {
        law_recipient_accumulates(eval, (n - 1) as nat);
    }
}

/// An evaluation that fails does so at the first entry that cannot stand, and
/// with the error of that entry.
pub proof fn law_first_failure(eval: Evaluation, n: nat) -> (first: TxIdx)
    requires
        n <= usize::MAX,
        eval.after(n) is Err,
    ensures
        first < n,
        eval.reaches(first),
        eval.step(eval.after(first as nat)->Ok_0, first) == eval.after(n),
    decreases n,
{
    let i = (n - 1) as usize;
    if eval.after((n - 1) as nat) is Err {
        law_first_failure(eval, (n - 1) as nat)
    } else {
        i
    }
}

/// The account at an address, where the state has one.
pub open spec fn account_at(state: Map<Address, AccountView>, address: Address) -> Option<
    AccountView,
> {
    if state.contains_key(address) {
        Some(state[address])
    } else {
        None
    }
}

/// What becomes of the account at the evaluated address.
pub open spec fn settled_account(
    before: Option<AccountView>,
    account: LazyAccountView,
    code: Seq<u8>,
    spec: SpecId,
) -> Option<AccountView> {
    if crate::lazy::left_out(account, spec) {
        before
    } else {
        match before {
            Some(known) => Some(
                AccountView {
                    info: AccountInfoView {
                        balance: account.balance,
                        nonce: account.nonce,
                        ..known.info
                    },
                    ..known
                },
            ),
            None => Some(
                AccountView {
                    info: AccountInfoView {
                        balance: account.balance,
                        nonce: account.nonce,
                        code_hash: account.code_hash,
                        code: Some(code),
                    },
                    transaction_id: 0,
                    storage: Seq::empty(),
                    status: crate::account::touched_status(),
                },
            ),
        }
    }
}

/// Settling an account changes nothing but that account, and that one only in the
/// results of the transactions that wrote to it: there it has the balance and the
/// nonce with which the transaction left it, unless it is left out.
pub proof fn law_settle_touches_one_account(
    eval: Evaluation,
    results: Seq<TxResultView>,
    code: Seq<u8>,
    spec: SpecId,
    i: int,
    address: Address,
)
    requires
        eval.settle(results, code, spec) is Ok,
        0 <= i < results.len(),
    ensures
        eval.settle(results, code, spec)->Ok_0.len() == results.len(),
        eval.settle(results, code, spec)->Ok_0[i].receipt == results[i].receipt,
        account_at(eval.settle(results, code, spec)->Ok_0[i].state, address) == (if address
            == eval.address && eval.history.contains_key(i as usize) {
            settled_account(
                account_at(results[i].state, address),
                eval.after((i + 1) as nat)->Ok_0,
                code,
                spec,
            )
        } else {
            account_at(results[i].state, address)
        }),
{
}

/// Two evaluations that differ at most in the balance and the nonce before the
/// block agree once an absolute value has been written.
proof fn lemma_absolute_agrees(eval: Evaluation, other: Evaluation, first: TxIdx, n: nat)
    requires
        other == (Evaluation { start: other.start, ..eval }),
        other.start.code_hash == eval.start.code_hash,
        eval.history.contains_key(first),
        forall|i: TxIdx| #[trigger] eval.history.contains_key(i) ==> first <= i,
        eval.history[first] matches Entry::Data(_, LocationValue::Basic(_)),
        n <= usize::MAX,
    ensures
        n <= first ==> eval.after(n) == Ok::<LazyAccountView, ErrorView>(eval.start)
            && other.after(n) == Ok::<LazyAccountView, ErrorView>(other.start),
        n > first ==> eval.after(n) == other.after(n),
    decreases n,
{
    if n > 0 {
        lemma_absolute_agrees(eval, other, first, (n - 1) as nat);
    }
}

/// Where the first entry of a history is an absolute value, the balance and the
/// nonce that the account had before the block do not matter: there is no need to
/// read them.
pub proof fn law_absolute_start(
    eval: Evaluation,
    other: Evaluation,
    results: Seq<TxResultView>,
    code: Seq<u8>,
    spec: SpecId,
)
    requires
        crate::mv_memory::begins_absolute(eval.history),
        other == (Evaluation { start: other.start, ..eval }),
        other.start.code_hash == eval.start.code_hash,
        results.len() == eval.txs.len(),
        eval.txs.len() <= usize::MAX,
    ensures
        eval.settle(results, code, spec) == other.settle(results, code, spec),
{
    let first = choose|first: TxIdx|
        {
            &&& #[trigger] eval.history.contains_key(first)
            &&& forall|i: TxIdx| #[trigger] eval.history.contains_key(i) ==> first <= i
            &&& eval.history[first] matches Entry::Data(_, LocationValue::Basic(_))
        };
    lemma_absolute_agrees(eval, other, first, eval.txs.len());
    if eval.settle(results, code, spec) is Ok {
        let left = eval.settle(results, code, spec)->Ok_0;
        let right = other.settle(results, code, spec)->Ok_0;
        assert forall|i: int| 0 <= i < results.len() implies left[i] == right[i] by {
            if eval.history.contains_key(i as usize) {
                lemma_absolute_agrees(eval, other, first, (i + 1) as nat);
            }
        }
        assert(left =~= right);
    }
}

/// Settling an account a second time changes nothing.
pub proof fn law_settle_twice(
    eval: Evaluation,
    results: Seq<TxResultView>,
    code: Seq<u8>,
    spec: SpecId,
)
    requires
        eval.settle(results, code, spec) is Ok,
    ensures
        eval.settle(eval.settle(results, code, spec)->Ok_0, code, spec) == eval.settle(
            results,
            code,
            spec,
        ),
{
    let once = eval.settle(results, code, spec)->Ok_0;
    let twice = eval.settle(once, code, spec)->Ok_0;
    assert forall|i: int| 0 <= i < results.len() implies twice[i] == once[i] by {
        assert(twice[i].state =~= once[i].state);
    }
    assert(twice =~= once);
}

/// What is known of one lazily updated account.
pub struct LazyRead {
    pub address: Address,
    pub history: Map<TxIdx, Entry>,
    pub start: LazyAccountView,
    pub code: Seq<u8>,
}

impl LazyRead {
    /// The evaluation of the account over a block.
    pub open spec fn evaluation(self, txs: Seq<TxEnv>) -> Evaluation {
        Evaluation { address: self.address, history: self.history, start: self.start, txs }
    }
}

/// The results with all accounts settled, one after the other.
pub open spec fn settle_all(
    txs: Seq<TxEnv>,
    spec: SpecId,
    results: Seq<TxResultView>,
    reads: Seq<LazyRead>,
) -> Result<Seq<TxResultView>, ErrorView>
    decreases reads.len(),
{
    if reads.len() == 0 {
        Ok(results)
    } else {
        match settle_all(txs, spec, results, reads.drop_last()) {
            Ok(settled) => reads.last().evaluation(txs).settle(settled, reads.last().code, spec),
            Err(error) => Err(error),
        }
    }
}

/// Whether no address occurs twice.
pub open spec fn addresses_differ(reads: Seq<LazyRead>) -> bool {
    forall|j: int, k: int|
        0 <= j < k < reads.len() ==> (#[trigger] reads[j]).address != (
        #[trigger] reads[k]).address
}

/// Whether every account can be evaluated over the block without an error.
pub open spec fn all_succeed(txs: Seq<TxEnv>, reads: Seq<LazyRead>) -> bool {
    forall|k: int|
        0 <= k < reads.len() ==> (#[trigger] reads[k]).evaluation(txs).after(txs.len()) is Ok
}

/// Whether some account in a list has an address.
pub open spec fn names(reads: Seq<LazyRead>, address: Address) -> bool {
    exists|k: int| 0 <= k < reads.len() && (#[trigger] reads[k]).address == address
}

/// Settling accounts of different addresses succeeds if each evaluation does, and
/// leaves each account as if it had been settled alone.
pub proof fn law_settle_all(
    txs: Seq<TxEnv>,
    spec: SpecId,
    results: Seq<TxResultView>,
    reads: Seq<LazyRead>,
)
    requires
        addresses_differ(reads),
        all_succeed(txs, reads),
    ensures
        settle_all(txs, spec, results, reads) is Ok,
        settle_all(txs, spec, results, reads)->Ok_0.len() == results.len(),
        forall|i: int|
            0 <= i < results.len() ==> (#[trigger] settle_all(
                txs,
                spec,
                results,
                reads,
            )->Ok_0[i]).receipt == results[i].receipt,
        forall|i: int, address: Address|
            0 <= i < results.len() && !names(reads, address) ==> #[trigger] account_at(
                settle_all(txs, spec, results, reads)->Ok_0[i].state,
                address,
            ) == account_at(results[i].state, address),
        forall|i: int, k: int|
            0 <= i < results.len() && 0 <= k < reads.len() ==> #[trigger] account_at(
                settle_all(txs, spec, results, reads)->Ok_0[i].state,
                reads[k].address,
            ) == (if reads[k].history.contains_key(i as usize) {
                settled_account(
                    account_at(results[i].state, reads[k].address),
                    reads[k].evaluation(txs).after((i + 1) as nat)->Ok_0,
                    reads[k].code,
                    spec,
                )
            } else {
                account_at(results[i].state, reads[k].address)
            }),
    decreases reads.len(),
{
    if reads.len() > 0 {
        let last = reads.len() - 1;
        let rest = reads.drop_last();
        law_settle_all(txs, spec, results, rest);
        let before = settle_all(txs, spec, results, rest)->Ok_0;
        let eval = reads[last].evaluation(txs);
        let after = eval.settle(before, reads[last].code, spec)->Ok_0;
        assert(eval.after(txs.len()) is Ok);
        assert(!names(rest, reads[last].address)) by {
            if names(rest, reads[last].address) {
                let k = choose|k: int|
                    0 <= k < rest.len() && (#[trigger] rest[k]).address == reads[last].address;
                assert(reads[k].address == rest[k].address);
            }
        }
        assert forall|i: int, address: Address|
            0 <= i < results.len() && !names(reads, address) implies #[trigger] account_at(
            after[i].state,
            address,
        ) == account_at(results[i].state, address) by {
            assert(!names(rest, address)) by {
                if names(rest, address) {
                    let k = choose|k: int|
                        0 <= k < rest.len() && (#[trigger] rest[k]).address == address;
                    assert(reads[k].address == address);
                }
            }
            assert(reads[last].address != address);
            assert(account_at(before[i].state, address) == account_at(results[i].state, address));
            law_settle_touches_one_account(eval, before, reads[last].code, spec, i, address);
        }
        assert forall|i: int, k: int|
            0 <= i < results.len() && 0 <= k < reads.len() implies #[trigger] account_at(
            after[i].state,
            reads[k].address,
        ) == (if reads[k].history.contains_key(i as usize) {
            settled_account(
                account_at(results[i].state, reads[k].address),
                reads[k].evaluation(txs).after((i + 1) as nat)->Ok_0,
                reads[k].code,
                spec,
            )
        } else {
            account_at(results[i].state, reads[k].address)
        }) by {
            law_settle_touches_one_account(
                eval,
                before,
                reads[last].code,
                spec,
                i,
                reads[k].address,
            );
            if k < last {
                assert(reads[k] == rest[k]);
                assert(account_at(before[i].state, rest[k].address) == account_at(
                    before[i].state,
                    reads[k].address,
                ));
            } else {
                assert(account_at(before[i].state, reads[last].address) == account_at(
                    results[i].state,
                    reads[last].address,
                ));
            }
        }
    }
}

/// States with the same accounts at all addresses are the same.
proof fn lemma_same_accounts(left: Map<Address, AccountView>, right: Map<Address, AccountView>)
    requires
        forall|address: Address| #[trigger]
            account_at(left, address) == account_at(right, address),
    ensures
        left == right,
{
    assert forall|address: Address|
        left.dom().contains(address) <==> right.dom().contains(address) by {
        assert(account_at(left, address) == account_at(right, address));
    }
    assert forall|address: Address| left.dom().contains(address) implies left[address]
        == right[address] by {
        assert(account_at(left, address) == account_at(right, address));
    }
    assert(left =~= right);
}

/// The order in which accounts are settled does not matter, as long as each of
/// them can be evaluated without an error.
pub proof fn law_settlement_order(
    txs: Seq<TxEnv>,
    spec: SpecId,
    results: Seq<TxResultView>,
    reads: Seq<LazyRead>,
    others: Seq<LazyRead>,
)
    requires
        addresses_differ(reads),
        addresses_differ(others),
        all_succeed(txs, reads),
        reads.to_set() == others.to_set(),
    ensures
        settle_all(txs, spec, results, reads) == settle_all(txs, spec, results, others),
{
    assert forall|k: int| 0 <= k < others.len() implies exists|j: int|
        0 <= j < reads.len() && #[trigger] reads[j] == (#[trigger] others[k]) by {
        assert(others.to_set().contains(others[k]));
    }
    assert forall|k: int| 0 <= k < others.len() implies (#[trigger] others[k]).evaluation(
        txs,
    ).after(txs.len()) is Ok by {
        let j = choose|j: int| 0 <= j < reads.len() && #[trigger] reads[j] == others[k];
        assert(reads[j].evaluation(txs).after(txs.len()) is Ok);
    }
    law_settle_all(txs, spec, results, reads);
    law_settle_all(txs, spec, results, others);
    let left = settle_all(txs, spec, results, reads)->Ok_0;
    let right = settle_all(txs, spec, results, others)->Ok_0;
    assert forall|i: int| 0 <= i < results.len() implies left[i] == right[i] by {
        assert(left[i].receipt == right[i].receipt);
        assert forall|address: Address|
            #[trigger] account_at(left[i].state, address) == account_at(
                right[i].state,
                address,
            ) by {
            if names(others, address) {
                let k = choose|k: int|
                    0 <= k < others.len() && (#[trigger] others[k]).address == address;
                let j = choose|j: int| 0 <= j < reads.len() && #[trigger] reads[j] == others[k];
                assert(account_at(left[i].state, reads[j].address) == account_at(
                    right[i].state,
                    others[k].address,
                ));
            } else {
                assert(!names(reads, address)) by {
                    if names(reads, address) {
                        let j = choose|j: int|
                            0 <= j < reads.len() && (#[trigger] reads[j]).address == address;
                        assert(reads.to_set().contains(reads[j]));
                        let k = choose|k: int| 0 <= k < others.len() && others[k] == reads[j];
                        assert(others[k].address == address);
                    }
                }
            }
        }
        lemma_same_accounts(left[i].state, right[i].state);
    }
    assert(left =~= right);
}

} // verus!
