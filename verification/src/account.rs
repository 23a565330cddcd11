//! Accounts as the host hands them to the program.

use vstd::prelude::*;
use crate::pubkey::Pubkey;

verus! {

/// One entry of the list of accounts that comes with an instruction. The
/// program reads and writes the buffer of an account only where the account
/// belongs to it.
#[derive(Clone, Debug, PartialEq)]
pub struct AccountInfo {
    /// Identity of the account.
    pub key: Pubkey,
    /// Whether the account has signed the instruction.
    pub is_signer: bool,
    /// The buffer of the account.
    pub data: Vec<u8>,
    /// The program that owns the account.
    pub owner: Pubkey,
}

/// An account as contracts speak of it: its buffer is a sequence of bytes.
pub struct AccountView {
    /// Identity of the account.
    pub key: Pubkey,
    /// Whether the account has signed the instruction.
    pub is_signer: bool,
    /// What the buffer of the account holds.
    pub data: Seq<u8>,
    /// The program that owns the account.
    pub owner: Pubkey,
}

impl View for AccountInfo {
    type V = AccountView;

    open spec fn view(&self) -> AccountView {
        AccountView {
            key: self.key,
            is_signer: self.is_signer,
            data: self.data@,
            owner: self.owner,
        }
    }
}

/// The accounts of a list, each as contracts speak of it.
pub open spec fn views(accounts: Seq<AccountInfo>) -> Seq<AccountView> {
    Seq::new(accounts.len(), |i: int| accounts[i]@)
}

} // verus!
