//! What the transactions of a block wrote to one location while they were
//! executed.

use crate::account::AccountInfo;
use crate::primitives::{TxIdx, U256};
use std::collections::BTreeMap;
use vstd::prelude::*;

verus! {

/// A value written to a location.
#[derive(Debug, PartialEq, Eq)]
pub enum LocationValue {
    /// An account's balance and nonce, whatever they were before.
    Basic(AccountInfo),
    /// An amount that the account received, on top of what it had.
    LazyRecipient(U256),
    /// An amount that the account spent as a transaction's caller.
    LazySender(U256),
    /// A value that no account location holds.
    Other,
}

/// What one transaction wrote to a location.
#[derive(Debug, PartialEq, Eq)]
pub enum Entry {
    /// A value, and the incarnation of the transaction that wrote it.
    Data(usize, LocationValue),
    /// A mark that the transaction is about to write there again.
    Estimate,
}

/// What was written to one location, by transaction.
pub type WriteHistory = BTreeMap<TxIdx, Entry>;

/// Whether the earliest entry holds an absolute value, so that what the account
/// was before the block does not matter.
pub open spec fn begins_absolute(history: Map<TxIdx, Entry>) -> bool {
    exists|first: TxIdx|
        {
            &&& #[trigger] history.contains_key(first)
            &&& forall|i: TxIdx| #[trigger] history.contains_key(i) ==> first <= i
            &&& history[first] matches Entry::Data(_, LocationValue::Basic(_))
        }
}

/// Whether a list holds exactly the entries of a history, the earliest first.
pub open spec fn is_timeline(entries: Seq<(TxIdx, &Entry)>, history: Map<TxIdx, Entry>) -> bool {
    &&& forall|p: int, q: int| 0 <= p < q < entries.len() ==> entries[p].0 < entries[q].0
    &&& forall|p: int|
        #![trigger entries[p]]
        0 <= p < entries.len() ==> history.contains_key(entries[p].0) && history[entries[p].0]
            == *entries[p].1
    &&& forall|i: TxIdx| #[trigger]
        history.contains_key(i) ==> exists|p: int|
            0 <= p < entries.len() && (#[trigger] entries[p]).0 == i
}

/// The entries of a history, the earliest first.
pub fn timeline<'a>(history: &'a WriteHistory) -> (r: Vec<(TxIdx, &'a Entry)>)
    ensures
        is_timeline(r@, history@),
{
    broadcast use vstd::std_specs::btree::group_btree_axioms;
    broadcast use vstd::laws_cmp::group_laws_cmp;

    let mut entries: Vec<(TxIdx, &'a Entry)> = Vec::new();
    let iter = history.iter();
    let ghost pairs = vstd::std_specs::iter::IteratorSpec::remaining(&iter);
    proof {
        let keys = pairs.map_values(|kv: (&TxIdx, &Entry)| *kv.0);
        assert forall|p: int, q: int| 0 <= p < q < pairs.len() implies *pairs[p].0 < *pairs[q].0 by {
            assert(vstd::std_specs::btree::key_obeys_cmp_spec::<TxIdx>());
            assert(vstd::std_specs::cmp::OrdSpec::cmp_spec(&keys[p], &keys[q]) is Less);
        }
    }
    for pair in it: iter
        invariant
            it.seq() == pairs,
            entries@.len() == it.index(),
            forall|p: int|
                #![trigger entries@[p]]
                0 <= p < entries@.len() ==> entries@[p].0 == *pairs[p].0 && entries@[p].1
                    == pairs[p].1,
    {
        entries.push((*pair.0, pair.1));
    }
    assert forall|i: TxIdx| #[trigger] history@.contains_key(i) implies exists|p: int|
        0 <= p < entries@.len() && (#[trigger] entries@[p]).0 == i by {
        assert(pairs.contains((&i, &history@[i])));
        let p = choose|p: int| 0 <= p < pairs.len() && pairs[p] == (&i, &history@[i]);
        assert(entries@[p].0 == i);
    }
    entries
}

/// Whether the earliest entry holds an absolute value.
pub fn starts_with_absolute(history: &WriteHistory) -> (r: bool)
    ensures
        r == begins_absolute(history@),
{
    let entries = timeline(history);
    if entries.len() == 0 {
        return false;
    }
    assert(history@.contains_key(entries@[0].0));
    match entries[0].1 {
        Entry::Data(_, LocationValue::Basic(_)) => true,
        _ => false,
    }
}

} // verus!
