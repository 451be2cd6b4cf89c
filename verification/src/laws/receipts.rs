//! What holds of the receipts of a block, and of its sequential execution.

use crate::result::{ErrorView, ExecutionError, TxExecutionResult, TxResultView};
use crate::sequential::{SequentialEvent, SequentialStageView};
use crate::transaction::TxEnv;
use vstd::prelude::*;

verus! {

/// The gas that transactions used does not fall as more of them are counted.
proof fn lemma_gas_total_grows(results: Seq<TxResultView>, m: nat, n: nat)
    requires
        m <= n,
    ensures
        crate::gas::gas_total(results, m) <= crate::gas::gas_total(results, n),
    decreases n,
{
    if m < n {
        lemma_gas_total_grows(results, m, (n - 1) as nat);
    }
}

/// The gas of transactions depends on those transactions alone.
proof fn lemma_gas_total_prefix(left: Seq<TxResultView>, right: Seq<TxResultView>, n: nat)
    requires
        n <= left.len(),
        n <= right.len(),
        forall|i: int| 0 <= i < n ==> left[i] == right[i],
    ensures
        crate::gas::gas_total(left, n) == crate::gas::gas_total(right, n),
    decreases n,
{
    if n > 0 {
        lemma_gas_total_prefix(left, right, (n - 1) as nat);
    }
}

/// From one receipt of a block to a later one the count of gas does not fall.
pub proof fn law_gas_never_falls(results: Seq<TxResultView>, i: int, j: int)
    requires
        0 <= i <= j < results.len(),
    ensures
        crate::gas::with_cumulative_gas(results)[i].receipt.cumulative_gas_used
            <= crate::gas::with_cumulative_gas(results)[j].receipt.cumulative_gas_used,
{
    lemma_gas_total_grows(results, (i + 1) as nat, (j + 1) as nat);
}

/// As long as a block's gas can be counted, each receipt counts the gas of its
/// own transaction on top of the count of the receipt before it.
pub proof fn law_gas_adds_up(results: Seq<TxResultView>, i: int)
    requires
        0 < i < results.len(),
        crate::gas::gas_total(results, results.len()) <= u64::MAX,
    ensures
        crate::gas::with_cumulative_gas(results)[i].receipt.cumulative_gas_used
            == crate::gas::with_cumulative_gas(results)[i - 1].receipt.cumulative_gas_used
            + results[i].receipt.cumulative_gas_used,
{
    lemma_gas_total_grows(results, (i + 1) as nat, results.len());
}

/// The stage of a sequential execution after the first `n` transactions were
/// executed and committed, where executing them comes to `outcomes`.
pub open spec fn sequential_run(
    txs: Seq<TxEnv>,
    outcomes: Seq<Result<TxExecutionResult, ExecutionError>>,
    n: nat,
) -> SequentialStageView
    decreases n,
{
    if n == 0 {
        crate::sequential::sequential_next(txs, SequentialStageView::Start, SequentialEvent::Begin)
    } else {
        let stage = sequential_run(txs, outcomes, (n - 1) as nat);
        if stage is Done {
            stage
        } else {
            let transacted = crate::sequential::sequential_next(
                txs,
                stage,
                SequentialEvent::Transacted(outcomes[n - 1]),
            );
            if transacted is Done {
                transacted
            } else {
                crate::sequential::sequential_next(txs, transacted, SequentialEvent::Committed)
            }
        }
    }
}

/// Whether the type byte of each of the first `n` transactions stands for a kind.
pub open spec fn types_known(txs: Seq<TxEnv>, n: nat) -> bool {
    forall|i: int|
        0 <= i < n ==> crate::transaction::tx_type_of((#[trigger] txs[i]).tx_type) is Some
}

/// Whether executing each of the first `n` transactions comes to a result.
pub open spec fn all_executed(
    outcomes: Seq<Result<TxExecutionResult, ExecutionError>>,
    n: nat,
) -> bool {
    forall|i: int| 0 <= i < n ==> (#[trigger] outcomes[i]) is Ok
}

/// The results of the first `n` transactions alone.
pub open spec fn raw_results(
    outcomes: Seq<Result<TxExecutionResult, ExecutionError>>,
    n: nat,
) -> Seq<TxResultView> {
    Seq::new(n, |i: int| outcomes[i]->Ok_0@)
}

/// A sequential execution that has got through its first transactions holds
/// their results with the gas counted up.
proof fn lemma_sequential_prefix(
    txs: Seq<TxEnv>,
    outcomes: Seq<Result<TxExecutionResult, ExecutionError>>,
    n: nat,
)
    requires
        n <= txs.len(),
        n <= outcomes.len(),
        types_known(txs, n),
        all_executed(outcomes, n),
    ensures
        sequential_run(txs, outcomes, n) == crate::sequential::next_transaction(
            txs,
            crate::gas::with_cumulative_gas(raw_results(outcomes, n)),
            crate::gas::gas_count(crate::gas::gas_total(raw_results(outcomes, n), n)),
        ),
    decreases n,
{
    let raw = raw_results(outcomes, n);
    if n == 0 {
        assert(crate::gas::with_cumulative_gas(raw) =~= Seq::empty());
    } else {
        let before = raw_results(outcomes, (n - 1) as nat);
        lemma_sequential_prefix(txs, outcomes, (n - 1) as nat);
        assert(crate::transaction::tx_type_of(txs[n - 1].tx_type) is Some);
        assert(outcomes[n - 1] is Ok);
        lemma_gas_total_prefix(before, raw, (n - 1) as nat);
        let used = crate::gas::gas_count(crate::gas::gas_total(raw, n));
        assert forall|i: int| 0 <= i < n - 1 implies crate::gas::with_cumulative_gas(before)[i]
            == #[trigger] crate::gas::with_cumulative_gas(raw)[i] by {
            lemma_gas_total_prefix(before, raw, (i + 1) as nat);
        }
        assert(crate::gas::with_cumulative_gas(before).push(
            crate::gas::with_gas(outcomes[n - 1]->Ok_0@, used),
        ) =~= crate::gas::with_cumulative_gas(raw));
    }
}

/// A sequential execution in which every transaction comes to a result gives the
/// results of all transactions in order, with the gas counted up.
pub proof fn law_sequential_results(
    txs: Seq<TxEnv>,
    outcomes: Seq<Result<TxExecutionResult, ExecutionError>>,
)
    requires
        outcomes.len() == txs.len(),
        types_known(txs, txs.len()),
        all_executed(outcomes, txs.len()),
    ensures
        sequential_run(txs, outcomes, txs.len()) == SequentialStageView::Done(
            Ok(crate::gas::with_cumulative_gas(raw_results(outcomes, txs.len()))),
        ),
{
    lemma_sequential_prefix(txs, outcomes, txs.len());
}

/// A sequential execution ends with the error of the first transaction that
/// fails, and executes none after it.
pub proof fn law_sequential_first_failure(
    txs: Seq<TxEnv>,
    outcomes: Seq<Result<TxExecutionResult, ExecutionError>>,
    first: nat,
    n: nat,
)
    requires
        first < n <= txs.len(),
        outcomes.len() == txs.len(),
        types_known(txs, first + 1),
        all_executed(outcomes, first),
        outcomes[first as int] is Err,
    ensures
        sequential_run(txs, outcomes, n) == SequentialStageView::Done(
            Err(ErrorView::Execution(outcomes[first as int]->Err_0@)),
        ),
    decreases n,
{
    if n > first + 1 {
        law_sequential_first_failure(txs, outcomes, first, (n - 1) as nat);
    } else {
        lemma_sequential_prefix(txs, outcomes, first);
        assert(crate::transaction::tx_type_of(txs[first as int].tx_type) is Some);
    }
}

/// A sequential execution ends before the first transaction whose type byte
/// stands for nothing.
pub proof fn law_sequential_unknown_type(
    txs: Seq<TxEnv>,
    outcomes: Seq<Result<TxExecutionResult, ExecutionError>>,
    first: nat,
    n: nat,
)
    requires
        first <= n <= txs.len(),
        first < txs.len(),
        outcomes.len() == txs.len(),
        types_known(txs, first),
        all_executed(outcomes, first),
        crate::transaction::tx_type_of(txs[first as int].tx_type) is None,
    ensures
        sequential_run(txs, outcomes, n) == SequentialStageView::Done(Err(ErrorView::Unreachable)),
    decreases n,
{
    if n > first {
        law_sequential_unknown_type(txs, outcomes, first, (n - 1) as nat);
    } else {
        lemma_sequential_prefix(txs, outcomes, first);
    }
}

/// A sequential execution that is done stays as it is.
proof fn lemma_done_stays(
    txs: Seq<TxEnv>,
    outcomes: Seq<Result<TxExecutionResult, ExecutionError>>,
    m: nat,
    n: nat,
)
    requires
        m <= n,
        sequential_run(txs, outcomes, m) is Done,
    ensures
        sequential_run(txs, outcomes, n) == sequential_run(txs, outcomes, m),
    decreases n,
{
    if m < n {
        lemma_done_stays(txs, outcomes, m, (n - 1) as nat);
    }
}

/// A sequential execution has come to an error, or each transaction so far has a
/// known type and came to a result.
proof fn lemma_error_or_executed(
    txs: Seq<TxEnv>,
    outcomes: Seq<Result<TxExecutionResult, ExecutionError>>,
    n: nat,
)
    requires
        n <= txs.len(),
        outcomes.len() == txs.len(),
    ensures
        (sequential_run(txs, outcomes, n) matches SequentialStageView::Done(Err(_))) || (
        types_known(txs, n) && all_executed(outcomes, n)),
    decreases n,
{
    if n > 0 {
        let m = (n - 1) as nat;
        lemma_error_or_executed(txs, outcomes, m);
        if types_known(txs, m) && all_executed(outcomes, m) {
            lemma_sequential_prefix(txs, outcomes, m);
        }
    }
}

/// Whether the sequential execution of a block ends with results.
pub open spec fn succeeds(
    txs: Seq<TxEnv>,
    outcomes: Seq<Result<TxExecutionResult, ExecutionError>>,
) -> bool {
    &&& outcomes.len() == txs.len()
    &&& sequential_run(txs, outcomes, txs.len()) matches SequentialStageView::Done(Ok(_))
}

/// The results with which the sequential execution of a block ends.
pub open spec fn sequential_results(
    txs: Seq<TxEnv>,
    outcomes: Seq<Result<TxExecutionResult, ExecutionError>>,
) -> Seq<TxResultView> {
    sequential_run(txs, outcomes, txs.len())->Done_0->Ok_0
}

/// A sequential execution ends with results if every type is known and every
/// transaction comes to a result, and only then.
pub proof fn law_sequential_success(
    txs: Seq<TxEnv>,
    outcomes: Seq<Result<TxExecutionResult, ExecutionError>>,
)
    requires
        outcomes.len() == txs.len(),
    ensures
        succeeds(txs, outcomes) <==> types_known(txs, txs.len()) && all_executed(
            outcomes,
            txs.len(),
        ),
{
    lemma_error_or_executed(txs, outcomes, txs.len());
    if types_known(txs, txs.len()) && all_executed(outcomes, txs.len()) {
        law_sequential_results(txs, outcomes);
    }
}

/// The results of a block's first transactions are the first results of the block.
pub proof fn law_sequential_prefix(
    txs: Seq<TxEnv>,
    outcomes: Seq<Result<TxExecutionResult, ExecutionError>>,
    k: int,
)
    requires
        succeeds(txs, outcomes),
        0 <= k <= txs.len(),
    ensures
        succeeds(txs.take(k), outcomes.take(k)),
        sequential_results(txs.take(k), outcomes.take(k)) == sequential_results(
            txs,
            outcomes,
        ).take(k),
{
    let some_txs = txs.take(k);
    let some_outcomes = outcomes.take(k);
    law_sequential_success(txs, outcomes);
    law_sequential_results(txs, outcomes);
    assert forall|i: int| 0 <= i < k implies crate::transaction::tx_type_of(
        (#[trigger] some_txs[i]).tx_type,
    ) is Some by {
        assert(some_txs[i] == txs[i]);
    }
    assert forall|i: int| 0 <= i < k implies (#[trigger] some_outcomes[i]) is Ok by {
        assert(some_outcomes[i] == outcomes[i]);
    }
    law_sequential_results(some_txs, some_outcomes);
    let raw = raw_results(outcomes, txs.len());
    let some_raw = raw_results(some_outcomes, k as nat);
    assert forall|i: int| 0 <= i < k implies crate::gas::with_cumulative_gas(some_raw)[i]
        == crate::gas::with_cumulative_gas(raw)[i] by {
        lemma_gas_total_prefix(some_raw, raw, (i + 1) as nat);
    }
    assert(crate::gas::with_cumulative_gas(some_raw) =~= crate::gas::with_cumulative_gas(
        raw,
    ).take(k));
}

/// As long as a block is not done with results, transactions behind it make no
/// difference.
proof fn lemma_not_done_with_results(
    txs: Seq<TxEnv>,
    outcomes: Seq<Result<TxExecutionResult, ExecutionError>>,
    more: Seq<TxEnv>,
    more_outcomes: Seq<Result<TxExecutionResult, ExecutionError>>,
    n: nat,
)
    requires
        n <= txs.len(),
        outcomes.len() == txs.len(),
        !(sequential_run(txs, outcomes, n) matches SequentialStageView::Done(Ok(_))),
    ensures
        sequential_run(txs + more, outcomes + more_outcomes, n) == sequential_run(
            txs,
            outcomes,
            n,
        ),
    decreases n,
{
    if n > 0 {
        lemma_not_done_with_results(txs, outcomes, more, more_outcomes, (n - 1) as nat);
        assert((outcomes + more_outcomes)[n - 1] == outcomes[n - 1]);
    }
}

/// A block that ends in an error ends in that error whatever transactions come
/// behind it.
pub proof fn law_sequential_error_stands(
    txs: Seq<TxEnv>,
    outcomes: Seq<Result<TxExecutionResult, ExecutionError>>,
    more: Seq<TxEnv>,
    more_outcomes: Seq<Result<TxExecutionResult, ExecutionError>>,
    error: ErrorView,
)
    requires
        outcomes.len() == txs.len(),
        sequential_run(txs, outcomes, txs.len()) == SequentialStageView::Done(Err(error)),
    ensures
        sequential_run(txs + more, outcomes + more_outcomes, (txs + more).len())
            == SequentialStageView::Done(Err(error)),
{
    lemma_not_done_with_results(txs, outcomes, more, more_outcomes, txs.len());
    lemma_done_stays(
        txs + more,
        outcomes + more_outcomes,
        txs.len(),
        (txs + more).len(),
    );
}

/// The count of gas in a block's last receipt.
pub open spec fn last_gas(results: Seq<TxResultView>) -> u64 {
    if results.len() == 0 {
        0
    } else {
        results.last().receipt.cumulative_gas_used
    }
}

/// Results with gas that was used before them added to every count, up to the
/// largest count.
pub open spec fn behind_gas(results: Seq<TxResultView>, gas: u64) -> Seq<TxResultView> {
    Seq::new(
        results.len(),
        |i: int|
            crate::gas::with_gas(
                results[i],
                crate::gas::gas_count((gas + results[i].receipt.cumulative_gas_used) as nat),
            ),
    )
}

/// The gas of transactions one behind the other adds up.
proof fn lemma_gas_total_concat(left: Seq<TxResultView>, right: Seq<TxResultView>, n: nat)
    requires
        n <= right.len(),
    ensures
        crate::gas::gas_total(left + right, left.len() + n) == crate::gas::gas_total(
            left,
            left.len(),
        ) + crate::gas::gas_total(right, n),
    decreases n,
{
    if n == 0 {
        lemma_gas_total_prefix(left + right, left, left.len());
    } else {
        lemma_gas_total_concat(left, right, (n - 1) as nat);
        assert((left + right)[left.len() + n - 1] == right[n - 1]);
    }
}

/// Two blocks one behind the other have the results of the first, and then those
/// of the second with the gas of the first added.
pub proof fn law_sequential_concatenation(
    txs: Seq<TxEnv>,
    outcomes: Seq<Result<TxExecutionResult, ExecutionError>>,
    more: Seq<TxEnv>,
    more_outcomes: Seq<Result<TxExecutionResult, ExecutionError>>,
)
    requires
        succeeds(txs, outcomes),
        succeeds(more, more_outcomes),
    ensures
        succeeds(txs + more, outcomes + more_outcomes),
        sequential_results(txs + more, outcomes + more_outcomes) == sequential_results(
            txs,
            outcomes,
        ) + behind_gas(
            sequential_results(more, more_outcomes),
            last_gas(sequential_results(txs, outcomes)),
        ),
{
    let all_txs = txs + more;
    let all_outcomes = outcomes + more_outcomes;
    law_sequential_success(txs, outcomes);
    law_sequential_success(more, more_outcomes);
    law_sequential_results(txs, outcomes);
    law_sequential_results(more, more_outcomes);
    assert forall|i: int| 0 <= i < all_txs.len() implies crate::transaction::tx_type_of(
        (#[trigger] all_txs[i]).tx_type,
    ) is Some by {
        if i < txs.len() {
            assert(all_txs[i] == txs[i]);
        } else {
            assert(all_txs[i] == more[i - txs.len()]);
        }
    }
    assert forall|i: int| 0 <= i < all_outcomes.len() implies (
    #[trigger] all_outcomes[i]) is Ok by {
        if i < txs.len() {
            assert(all_outcomes[i] == outcomes[i]);
        } else {
            assert(all_outcomes[i] == more_outcomes[i - txs.len()]);
        }
    }
    law_sequential_results(all_txs, all_outcomes);
    let left = raw_results(outcomes, txs.len());
    let right = raw_results(more_outcomes, more.len());
    let both = raw_results(all_outcomes, all_txs.len());
    assert(both =~= left + right);
    let first = crate::gas::with_cumulative_gas(left);
    let second = crate::gas::with_cumulative_gas(right);
    let all = crate::gas::with_cumulative_gas(both);
    let wanted = first + behind_gas(second, last_gas(first));
    assert forall|i: int| 0 <= i < all.len() implies all[i] == wanted[i] by {
        if i < left.len() {
            lemma_gas_total_prefix(both, left, (i + 1) as nat);
        } else {
            let j = i - left.len();
            lemma_gas_total_concat(left, right, (j + 1) as nat);
            assert(both[i] == right[j]);
            assert(wanted[i] == behind_gas(second, last_gas(first))[j]);
        }
    }
    assert(all =~= wanted);
}

/// The counts of gas in a block's receipts depend on the receipts alone.
pub proof fn law_gas_depends_on_receipts(left: Seq<TxResultView>, right: Seq<TxResultView>, i: int)
    requires
        left.len() == right.len(),
        forall|j: int|
            0 <= j < left.len() ==> (#[trigger] left[j]).receipt == (#[trigger] right[j]).receipt,
        0 <= i < left.len(),
    ensures
        crate::gas::with_cumulative_gas(left)[i].receipt == crate::gas::with_cumulative_gas(
            right,
        )[i].receipt,
{
    lemma_gas_total_receipts(left, right, (i + 1) as nat);
    assert(left[i].receipt == right[i].receipt);
}

/// The gas of transactions depends on their receipts alone.
proof fn lemma_gas_total_receipts(left: Seq<TxResultView>, right: Seq<TxResultView>, n: nat)
    requires
        n <= left.len(),
        n <= right.len(),
        forall|j: int|
            0 <= j < n ==> (#[trigger] left[j]).receipt == (#[trigger] right[j]).receipt,
    ensures
        crate::gas::gas_total(left, n) == crate::gas::gas_total(right, n),
    decreases n,
{
    if n > 0 {
        lemma_gas_total_receipts(left, right, (n - 1) as nat);
        assert(left[n - 1].receipt == right[n - 1].receipt);
    }
}

} // verus!
