//! Full evaluation of the accounts that transactions updated lazily: the
//! beneficiary and the plain senders and recipients of value, whose balances
//! and nonces are known only once the whole block has been executed.

use crate::account::{
    Account, AccountInfo, AccountInfoView, AccountView, Bytecode, EvmState,
};
use crate::mv_memory::{Entry, LocationValue, WriteHistory};
use crate::primitives::{Address, B256, SpecId, TxIdx, U256};
use crate::result::{
    ErrorView, ExecutionError, ExecutionErrorView, InvalidTransaction, ParallelExecutorError,
    ParallelExecutorResult, TxExecutionResult, TxResultView,
};
use crate::transaction::TxEnv;
use vstd::prelude::*;

verus! {

/// An account on its way through a block.
#[derive(Clone, Copy, Debug, PartialEq, Eq)]
pub struct LazyAccount {
    pub balance: U256,
    pub nonce: u64,
    pub code_hash: B256,
}

/// The model of a [`LazyAccount`].
#[verifier::ext_equal]
pub struct LazyAccountView {
    pub balance: nat,
    pub nonce: nat,
    pub code_hash: B256,
}

impl View for LazyAccount {
    type V = LazyAccountView;

    open spec fn view(&self) -> LazyAccountView {
        LazyAccountView {
            balance: self.balance@,
            nonce: self.nonce as nat,
            code_hash: self.code_hash,
        }
    }
}

/// An account of which the storage holds nothing.
pub open spec fn absent_account() -> LazyAccountView {
    LazyAccountView { balance: 0, nonce: 0, code_hash: crate::primitives::keccak_empty_hash() }
}

/// The account before the block, from what the storage answered.
pub open spec fn stored_account(
    answer: Result<Option<AccountInfo>, String>,
) -> LazyAccountView {
    match answer {
        Ok(Some(info)) => LazyAccountView {
            balance: info.balance@,
            nonce: info.nonce as nat,
            code_hash: info.code_hash,
        },
        _ => absent_account(),
    }
}

impl LazyAccount {
    /// An account of which the storage holds nothing.
    pub fn absent() -> (r: LazyAccount)
        ensures
            r@ == absent_account(),
            r.balance@ == 0,
            r.nonce == 0,
            r.code_hash == crate::primitives::keccak_empty_hash(),
    {
        LazyAccount {
            balance: U256::zero(),
            nonce: 0,
            code_hash: crate::primitives::keccak_empty(),
        }
    }

    /// The account before the block, from what the storage answered. Where the
    /// storage failed, the account counts as absent.
    pub fn from_storage(answer: Result<Option<AccountInfo>, String>) -> (r: LazyAccount)
        ensures
            r@ == stored_account(answer),
            answer matches Ok(Some(info)) ==> {
                &&& r.balance@ == info.balance@
                &&& r.nonce == info.nonce
                &&& r.code_hash == info.code_hash
            },
            !(answer matches Ok(Some(_))) ==> {
                &&& r.balance@ == 0
                &&& r.nonce == 0
                &&& r.code_hash == crate::primitives::keccak_empty_hash()
            },
    {
        match answer {
            Ok(Some(info)) => LazyAccount {
                balance: info.balance,
                nonce: info.nonce,
                code_hash: info.code_hash,
            },
            _ => LazyAccount::absent(),
        }
    }
}

/// What a written value makes of an account. A transaction that spends has to
/// leave its caller able to pay the most that it can cost.
pub open spec fn apply_value(account: LazyAccountView, value: LocationValue, tx: TxEnv) -> Result<
    LazyAccountView,
    ErrorView,
> {
    match value {
        LocationValue::Basic(info) => Ok(
            LazyAccountView { balance: info.balance@, nonce: info.nonce as nat, ..account },
        ),
        LocationValue::LazyRecipient(amount) => Ok(
            LazyAccountView {
                balance: crate::primitives::saturate(account.balance + amount@),
                ..account
            },
        ),
        LocationValue::LazySender(amount) => {
            let fee = crate::primitives::saturate(tx.cost());
            if account.balance < fee {
                Err(
                    ErrorView::Execution(
                        ExecutionErrorView::LackOfFundForMaxFee { balance: account.balance, fee },
                    ),
                )
            } else {
                Ok(
                    LazyAccountView {
                        balance: crate::primitives::monus(account.balance, amount@),
                        nonce: account.nonce + 1,
                        ..account
                    },
                )
            }
        },
        LocationValue::Other => Ok(account),
    }
}

/// Holds the nonce that a transaction left its caller with against the nonce
/// that the transaction has.
pub open spec fn check_caller(
    account: LazyAccountView,
    address: Address,
    tx_idx: TxIdx,
    tx: TxEnv,
) -> Result<LazyAccountView, ErrorView> {
    if tx.caller != address {
        Ok(account)
    } else if account.nonce == 0 {
        Err(ErrorView::Unreachable)
    } else if tx.nonce != account.nonce - 1 {
        Err(
            ErrorView::NonceMismatch {
                tx_idx,
                tx_nonce: tx.nonce,
                executed_nonce: (account.nonce - 1) as u64,
            },
        )
    } else {
        Ok(account)
    }
}

/// Whether an entry can be evaluated: it holds a value of an account, no
/// absolute value is that of an empty account, and no count runs over.
pub open spec fn entry_evaluable(account: LazyAccountView, entry: Entry, tx: TxEnv) -> bool {
    match entry {
        Entry::Data(_, LocationValue::Basic(info)) => !(info.balance@ == 0 && info.nonce == 0),
        Entry::Data(_, LocationValue::LazyRecipient(_)) => true,
        Entry::Data(_, LocationValue::LazySender(_)) => {
            &&& tx.blob_gas_fits()
            &&& account.balance >= crate::primitives::saturate(tx.cost()) ==> account.nonce
                < u64::MAX
        },
        _ => false,
    }
}

/// The evaluation of one account over a block.
pub struct Evaluation {
    /// The account's address.
    pub address: Address,
    /// What the block's transactions wrote to the account.
    pub history: Map<TxIdx, Entry>,
    /// The account before the block.
    pub start: LazyAccountView,
    /// The block's transactions.
    pub txs: Seq<TxEnv>,
}

impl Evaluation {
    /// The account after one entry.
    pub open spec fn step(self, account: LazyAccountView, tx_idx: TxIdx) -> Result<
        LazyAccountView,
        ErrorView,
    > {
        let tx = self.txs[tx_idx as int];
        match self.history[tx_idx] {
            Entry::Data(_, value) => match apply_value(account, value, tx) {
                Ok(changed) => check_caller(changed, self.address, tx_idx, tx),
                Err(error) => Err(error),
            },
            Entry::Estimate => Ok(account),
        }
    }

    /// The account after the first `n` transactions of the block.
    pub open spec fn after(self, n: nat) -> Result<LazyAccountView, ErrorView>
        decreases n,
    {
        if n == 0 {
            Ok(self.start)
        } else {
            match self.after((n - 1) as nat) {
                Ok(account) => if self.history.contains_key((n - 1) as usize) {
                    self.step(account, (n - 1) as usize)
                } else {
                    Ok(account)
                },
                Err(error) => Err(error),
            }
        }
    }

    /// Whether a transaction has an entry and the evaluation gets to it.
    pub open spec fn reaches(self, tx_idx: TxIdx) -> bool {
        self.history.contains_key(tx_idx) && self.after(tx_idx as nat) is Ok
    }

    /// Whether an entry that is reached can be evaluated, and belongs to a
    /// transaction of the block.
    pub open spec fn evaluable_at(self, tx_idx: TxIdx) -> bool {
        tx_idx < self.txs.len() && entry_evaluable(
            self.after(tx_idx as nat)->Ok_0,
            self.history[tx_idx],
            self.txs[tx_idx as int],
        )
    }

    /// Whether every entry that is reached can be evaluated.
    pub open spec fn evaluable(self) -> bool {
        forall|i: TxIdx| #[trigger] self.reaches(i) ==> self.evaluable_at(i)
    }

    /// A transaction's result with the account in its state, if the transaction
    /// wrote to the account.
    pub open spec fn settled_result(
        self,
        result: TxResultView,
        tx_idx: int,
        code: Seq<u8>,
        spec: SpecId,
    ) -> TxResultView {
        if self.history.contains_key(tx_idx as usize) {
            TxResultView {
                state: settled_state(
                    result.state,
                    self.address,
                    self.after((tx_idx + 1) as nat)->Ok_0,
                    code,
                    spec,
                ),
                ..result
            }
        } else {
            result
        }
    }

    /// The block's results with the account in them, or why there are none.
    pub open spec fn settle(self, results: Seq<TxResultView>, code: Seq<u8>, spec: SpecId) -> Result<
        Seq<TxResultView>,
        ErrorView,
    > {
        match self.after(self.txs.len()) {
            Ok(_) => Ok(
                Seq::new(results.len(), |i: int| self.settled_result(results[i], i, code, spec)),
            ),
            Err(error) => Err(error),
        }
    }
}

/// Whether an account is left out of the state: an empty account, under the
/// rules of Spurious Dragon.
pub open spec fn left_out(account: LazyAccountView, spec: SpecId) -> bool {
    &&& spec.number() >= crate::primitives::SPURIOUS_DRAGON
    &&& account.code_hash == crate::primitives::keccak_empty_hash()
    &&& account.nonce == 0
    &&& account.balance == 0
}

/// A state with an account in it. Of an account that is there already only the
/// balance and the nonce change; a new one is marked as touched, so that it is
/// saved.
pub open spec fn settled_state(
    state: Map<Address, AccountView>,
    address: Address,
    account: LazyAccountView,
    code: Seq<u8>,
    spec: SpecId,
) -> Map<Address, AccountView> {
    if left_out(account, spec) {
        state
    } else if state.contains_key(address) {
        let before = state[address];
        state.insert(
            address,
            AccountView {
                info: AccountInfoView {
                    balance: account.balance,
                    nonce: account.nonce,
                    ..before.info
                },
                ..before
            },
        )
    } else {
        state.insert(
            address,
            AccountView {
                info: AccountInfoView {
                    balance: account.balance,
                    nonce: account.nonce,
                    code_hash: account.code_hash,
                    code: Some(code),
                },
                transaction_id: 0,
                storage: Seq::empty(),
                status: crate::account::touched_status(),
            },
        )
    }
}

/// Nothing changes over transactions that did not write to the account.
proof fn lemma_after_gap(eval: Evaluation, from: nat, to: nat)
    requires
        from <= to <= usize::MAX,
        forall|i: TxIdx| from <= i < to ==> !eval.history.contains_key(i),
    ensures
        eval.after(to) == eval.after(from),
    decreases to,
{
    if from < to {
        lemma_after_gap(eval, from, (to - 1) as nat);
        assert(!eval.history.contains_key((to - 1) as usize));
    }
}

/// Once the evaluation has failed, it stays failed with the same error.
proof fn lemma_after_failure(eval: Evaluation, from: nat, to: nat)
    requires
        from <= to,
        eval.after(from) is Err,
    ensures
        eval.after(to) == eval.after(from),
    decreases to,
{
    if from < to {
        lemma_after_failure(eval, from, (to - 1) as nat);
    }
}

/// Between one entry of a timeline and the next, and after the last one, no
/// transaction wrote to the account.
proof fn lemma_no_entry_between(
    entries: Seq<(TxIdx, &Entry)>,
    history: Map<TxIdx, Entry>,
    position: int,
    reached: nat,
)
    requires
        crate::mv_memory::is_timeline(entries, history),
        0 <= position <= entries.len(),
        position == 0 ==> reached == 0,
        position > 0 ==> reached == entries[position - 1].0 + 1,
    ensures
        forall|i: TxIdx|
            reached <= i && (position < entries.len() ==> i < entries[position].0)
                ==> !history.contains_key(i),
        position < entries.len() ==> reached <= entries[position].0,
{
    assert forall|i: TxIdx|
        reached <= i && (position < entries.len() ==> i < entries[position].0)
            implies !history.contains_key(i) by {
        if history.contains_key(i) {
            let p = choose|p: int| 0 <= p < entries.len() && (#[trigger] entries[p]).0 == i;
            assert(entries[p].0 == i);
        }
    }
}

/// Whether an entry can be evaluated from here.
fn is_evaluable(account: &LazyAccount, entry: &Entry, tx: &TxEnv) -> (r: bool)
    ensures
        r == entry_evaluable(account@, *entry, *tx),
{
    match entry {
        Entry::Data(_, LocationValue::Basic(info)) => !(info.balance.is_zero() && info.nonce == 0),
        Entry::Data(_, LocationValue::LazyRecipient(_)) => true,
        Entry::Data(_, LocationValue::LazySender(_)) => {
            tx.has_countable_blobs() && (account.balance.less_than(tx.max_fee()) || account.nonce
                < u64::MAX)
        },
        _ => false,
    }
}

/// The account after one entry, or why there is none.
fn evaluate_entry(
    account: LazyAccount,
    entry: &Entry,
    address: Address,
    tx_idx: TxIdx,
    tx: &TxEnv,
    Ghost(eval): Ghost<Evaluation>,
) -> (r: Result<LazyAccount, ParallelExecutorError>)
    requires
        entry_evaluable(account@, *entry, *tx),
        eval.address == address,
        eval.history[tx_idx] == *entry,
        eval.txs[tx_idx as int] == *tx,
    ensures
        match r {
            Ok(changed) => eval.step(account@, tx_idx) == Ok::<LazyAccountView, ErrorView>(
                changed@,
            ),
            Err(error) => eval.step(account@, tx_idx) == Err::<LazyAccountView, ErrorView>(error@),
        },
{
    let mut account = account;
    match entry {
        Entry::Data(_, LocationValue::Basic(info)) => {
            account.balance = info.balance;
            account.nonce = info.nonce;
        },
        Entry::Data(_, LocationValue::LazyRecipient(addition)) => {
            account.balance = account.balance.saturating_add(*addition);
        },
        Entry::Data(_, LocationValue::LazySender(subtraction)) => {
            let max_fee = tx.max_fee();
            if account.balance.less_than(max_fee) {
                return Err(
                    ParallelExecutorError::ExecutionError(
                        ExecutionError::Transaction(
                            InvalidTransaction::LackOfFundForMaxFee {
                                balance: account.balance,
                                fee: max_fee,
                            },
                        ),
                    ),
                );
            }
            account.balance = account.balance.saturating_sub(*subtraction);
            account.nonce = account.nonce + 1;
        },
        _ => {},
    }
    if tx.caller.0 == address.0 && tx.caller.1 == address.1 {
        if account.nonce == 0 {
            return Err(ParallelExecutorError::UnreachableError);
        }
        let executed_nonce: u64 = account.nonce - 1;
        if tx.nonce != executed_nonce {
            return Err(
                ParallelExecutorError::NonceMismatch {
                    tx_idx,
                    tx_nonce: tx.nonce,
                    executed_nonce,
                },
            );
        }
    }
    Ok(account)
}

/// Puts the account, as one transaction left it, into that transaction's state.
fn settle_state(
    state: &mut EvmState,
    address: Address,
    account: &LazyAccount,
    code: &Bytecode,
    spec: SpecId,
)
    ensures
        crate::account::state_view(*final(state)) == settled_state(
            crate::account::state_view(*old(state)),
            address,
            account@,
            code@,
            spec,
        ),
{
    broadcast use vstd::std_specs::btree::group_btree_axioms;
    broadcast use vstd::laws_cmp::group_laws_cmp;

    assert(vstd::laws_cmp::obeys_cmp::<Address>());
    if spec.is_spurious_dragon() && account.code_hash == crate::primitives::keccak_empty()
        && account.nonce == 0 && account.balance.is_zero() {
        return;
    }
    match state.remove(&address) {
        Some(known) => {
            let mut known = known;
            known.info.balance = account.balance;
            known.info.nonce = account.nonce;
            state.insert(address, known);
        },
        None => {
            let new = Account {
                info: AccountInfo {
                    balance: account.balance,
                    nonce: account.nonce,
                    code_hash: account.code_hash,
                    code: Some(code.clone()),
                },
                transaction_id: 0,
                storage: Vec::new(),
                status: crate::account::touched(),
            };
            assert(new.info.code->Some_0@ =~= code@);
            state.insert(address, new);
        },
    }
    assert(crate::account::state_view(*state) =~= settled_state(
        crate::account::state_view(*old(state)),
        address,
        account@,
        code@,
        spec,
    ));
}

/// Whether every entry of a history that [`settle_account`] would reach can be
/// evaluated.
pub fn can_settle(
    txs: &Vec<TxEnv>,
    address: Address,
    history: &WriteHistory,
    start: LazyAccount,
) -> (r: bool)
    ensures
        r == (Evaluation { address, history: history@, start: start@, txs: txs@ }).evaluable(),
{
    let ghost eval = Evaluation { address, history: history@, start: start@, txs: txs@ };
    let entries = crate::mv_memory::timeline(history);
    let mut account = start;
    let mut position: usize = 0;
    let ghost mut reached: nat = 0;
    while position < entries.len()
        invariant
            crate::mv_memory::is_timeline(entries@, history@),
            eval == (Evaluation { address, history: history@, start: start@, txs: txs@ }),
            position <= entries@.len(),
            reached <= txs@.len(),
            position == 0 ==> reached == 0,
            position > 0 ==> reached == entries@[position - 1].0 + 1,
            eval.after(reached) == Ok::<LazyAccountView, ErrorView>(account@),
            forall|i: TxIdx| #[trigger] eval.reaches(i) && i < reached ==> eval.evaluable_at(i),
        decreases entries@.len() - position,
    {
        let tx_idx: TxIdx = entries[position].0;
        let entry = entries[position].1;
        proof {
            assert(history@.contains_key(tx_idx));
            assert(eval.reaches(tx_idx) <==> eval.after(tx_idx as nat) is Ok);
            lemma_no_entry_between(entries@, history@, position as int, reached);
            lemma_after_gap(eval, reached, tx_idx as nat);
        }
        if tx_idx >= txs.len() || !is_evaluable(&account, entry, &txs[tx_idx]) {
            return false;
        }
        match evaluate_entry(account, entry, address, tx_idx, &txs[tx_idx], Ghost(eval)) {
            Ok(changed) => {
                account = changed;
            },
            Err(_) => {
                proof {
                    assert forall|i: TxIdx| #[trigger]
                        eval.reaches(i) implies eval.evaluable_at(i) by {
                        if i > tx_idx {
                            lemma_after_failure(eval, (tx_idx + 1) as nat, i as nat);
                        }
                    }
                }
                return true;
            },
        }
        proof {
            reached = (tx_idx + 1) as nat;
        }
        position = position + 1;
    }
    proof {
        lemma_no_entry_between(entries@, history@, position as int, reached);
    }
    true
}

/// Evaluates an account over a block, and puts it into the results of the
/// transactions that wrote to it.
pub fn settle_account(
    results: Vec<TxExecutionResult>,
    txs: &Vec<TxEnv>,
    spec: SpecId,
    address: Address,
    history: &WriteHistory,
    start: LazyAccount,
    code: &Bytecode,
) -> (r: ParallelExecutorResult)
    requires
        results@.len() == txs@.len(),
        (Evaluation { address, history: history@, start: start@, txs: txs@ }).evaluable(),
    ensures
        crate::result::outcome_view(r) == (Evaluation {
            address,
            history: history@,
            start: start@,
            txs: txs@,
        }).settle(crate::result::results_view(results@), code@, spec),
{
    let ghost eval = Evaluation { address, history: history@, start: start@, txs: txs@ };
    let ghost before = crate::result::results_view(results@);
    let entries = crate::mv_memory::timeline(history);
    let mut settled = results;
    let mut account = start;
    let mut position: usize = 0;
    // How many transactions have been evaluated.
    let ghost mut reached: nat = 0;
    while position < entries.len()
        invariant
            crate::mv_memory::is_timeline(entries@, history@),
            eval == (Evaluation { address, history: history@, start: start@, txs: txs@ }),
            eval.evaluable(),
            settled@.len() == txs@.len(),
            before == crate::result::results_view(results@),
            before.len() == settled@.len(),
            position <= entries@.len(),
            reached <= txs@.len(),
            position == 0 ==> reached == 0,
            position > 0 ==> reached == entries@[position - 1].0 + 1,
            eval.after(reached) == Ok::<LazyAccountView, ErrorView>(account@),
            forall|i: int|
                0 <= i < settled@.len() ==> (#[trigger] settled@[i])@ == (if i < reached {
                    eval.settled_result(before[i], i, code@, spec)
                } else {
                    before[i]
                }),
        decreases entries@.len() - position,
    {
        let tx_idx: TxIdx = entries[position].0;
        let entry = entries[position].1;
        proof {
            assert(history@.contains_key(tx_idx));
            assert(eval.reaches(tx_idx) <==> eval.after(tx_idx as nat) is Ok);
            lemma_no_entry_between(entries@, history@, position as int, reached);
            lemma_after_gap(eval, reached, tx_idx as nat);
        }
        match evaluate_entry(account, entry, address, tx_idx, &txs[tx_idx], Ghost(eval)) {
            Ok(changed) => {
                account = changed;
            },
            Err(error) => {
                proof {
                    lemma_after_failure(eval, (tx_idx + 1) as nat, txs@.len());
                }
                return Err(error);
            },
        }
        let ghost previous = settled@;
        settle_state(&mut settled[tx_idx].state, address, &account, code, spec);
        proof {
            assert forall|i: int| 0 <= i < settled@.len() implies (#[trigger] settled@[i])@ == (if i
                < tx_idx + 1 {
                eval.settled_result(before[i], i, code@, spec)
            } else {
                before[i]
            }) by {
                if i == tx_idx {
                    assert(settled@[i].receipt == previous[i].receipt);
                } else {
                    assert(settled@[i] == previous[i]);
                    if reached <= i < tx_idx {
                        assert(!history@.contains_key(i as usize));
                    }
                }
            }
            reached = (tx_idx + 1) as nat;
        }
        position = position + 1;
    }
    proof {
        lemma_no_entry_between(entries@, history@, position as int, reached);
        assert(txs@.len() == txs.len());
        lemma_after_gap(eval, reached, txs@.len());
        let expected = eval.settle(before, code@, spec)->Ok_0;
        assert forall|i: int| 0 <= i < expected.len() implies expected[i]
            == #[trigger] crate::result::results_view(settled@)[i] by {
            if i >= reached {
                assert(!history@.contains_key(i as usize));
            }
            assert(settled@[i]@ == eval.settled_result(before[i], i, code@, spec));
        }
        assert(crate::result::results_view(settled@) =~= expected);
    }
    Ok(settled)
}

} // verus!
