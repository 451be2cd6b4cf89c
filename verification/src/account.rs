//! Accounts and the state changes that a transaction makes to them.

use crate::primitives::{Address, B256, U256};
use std::collections::BTreeMap;
use vstd::prelude::*;

verus! {

/// The code of a contract, as its bytes.
pub type Bytecode = Vec<u8>;

/// What the chain keeps of an account besides its storage.
#[derive(Debug, PartialEq, Eq)]
pub struct AccountInfo {
    pub balance: U256,
    pub nonce: u64,
    /// The hash of the account's code.
    pub code_hash: B256,
    /// The account's code, where it has been loaded.
    pub code: Option<Bytecode>,
}

/// The model of an [`AccountInfo`].
#[verifier::ext_equal]
pub struct AccountInfoView {
    pub balance: nat,
    pub nonce: nat,
    pub code_hash: B256,
    pub code: Option<Seq<u8>>,
}

/// The model of code that may not have been loaded.
pub open spec fn code_view(code: Option<Bytecode>) -> Option<Seq<u8>> {
    match code {
        Some(bytes) => Some(bytes@),
        None => None,
    }
}

impl View for AccountInfo {
    type V = AccountInfoView;

    open spec fn view(&self) -> AccountInfoView {
        AccountInfoView {
            balance: self.balance@,
            nonce: self.nonce as nat,
            code_hash: self.code_hash,
            code: code_view(self.code),
        }
    }
}

/// What happened to an account, as a set of flags.
#[derive(Clone, Copy, Debug, PartialEq, Eq, Structural)]
pub struct AccountStatus {
    pub bits: u8,
}

/// The flags of an account that was touched and nothing else.
pub open spec fn touched_status() -> AccountStatus {
    AccountStatus { bits: 4 }
}

/// The constant `AccountStatus::Touched` of `revm::state`, by its bits.
#[verifier::external_body]
pub(crate) fn touched() -> (r: AccountStatus)
    ensures
        r == touched_status(),
{
    AccountStatus { bits: revm::state::AccountStatus::Touched.bits() }
}

/// A storage slot that was read or written.
#[derive(Debug, PartialEq, Eq)]
pub struct StorageSlot {
    pub key: U256,
    pub original_value: U256,
    pub present_value: U256,
    pub transaction_id: usize,
    pub is_cold: bool,
}

/// An account as a transaction left it.
#[derive(Debug, PartialEq, Eq)]
pub struct Account {
    pub info: AccountInfo,
    pub transaction_id: usize,
    pub storage: Vec<StorageSlot>,
    pub status: AccountStatus,
}

/// The model of an [`Account`].
#[verifier::ext_equal]
pub struct AccountView {
    pub info: AccountInfoView,
    pub transaction_id: usize,
    pub storage: Seq<StorageSlot>,
    pub status: AccountStatus,
}

impl View for Account {
    type V = AccountView;

    open spec fn view(&self) -> AccountView {
        AccountView {
            info: self.info@,
            transaction_id: self.transaction_id,
            storage: self.storage@,
            status: self.status,
        }
    }
}

/// The accounts that a transaction changed.
pub type EvmState = BTreeMap<Address, Account>;

/// The model of an [`EvmState`].
pub open spec fn state_view(state: EvmState) -> Map<Address, AccountView> {
    state@.map_values(|account: Account| account@)
}

} // verus!
