//! The instruction processor. It decodes an instruction, checks everything
//! that the instruction's rule asks of the accounts, and only then writes the
//! new states: an instruction that fails leaves every buffer as it was.

use vstd::prelude::*;
use crate::account::{views, AccountInfo};
use crate::error::TokenError;
use crate::pubkey::Pubkey;
use crate::rules::{
    approve_spec, approved, carried_out, fresh_account, loaded, newaccount_spec, newtoken_spec,
    process_spec, setowner_spec, stored, transfer_spec,
};
use crate::simple_serde::SimpleSerde;
use crate::state::{
    next_account_info, Command, State, Token, TokenAccount, TokenAccountDelegate,
    TOKEN_ACCOUNT_BYTES, TOKEN_BYTES,
};

verus! {

/// Status with which the program reports success to its host.
pub const SUCCESS: u32 = 0;

/// Status with which the program reports a failure to its host.
pub const FAILURE: u32 = 1;

impl State {
    /// Reads the state of `account` as the program `program_id` sees it.
    pub fn load(program_id: &Pubkey, account: &AccountInfo) -> (outcome: Result<State, TokenError>)
        ensures
            outcome == loaded(*program_id, account@),
    {
        if account.owner != *program_id {
            Ok(State::Invalid)
        } else {
            State::deserialize(account.data.as_slice())
        }
    }

    /// Writes this state over the front of the buffer of `account`. On an
    /// error the account is left as it was.
    pub fn store(&self, account: &mut AccountInfo) -> (outcome: Result<(), TokenError>)
        ensures
            match self.spec_serialize(old(account)@.data) {
                Ok(written) => outcome.is_ok() && final(account)@ == stored(old(account)@, *self),
                Err(e) => outcome == Err::<(), TokenError>(e) && final(account)@ == old(account)@,
            },
    {
        self.serialize(account.data.as_mut_slice())
    }

    /// Creates the token `token` at position 0 and hands its supply to the
    /// account at position 1.
    pub fn process_newtoken(
        program_id: &Pubkey,
        accounts: &mut [AccountInfo],
        token: Token,
    ) -> (outcome: Result<(), TokenError>)
        ensures
            carried_out(
                views(old(accounts)@),
                newtoken_spec(*program_id, views(old(accounts)@), token),
                outcome,
                views(final(accounts)@),
            ),
    {
        let ghost before = accounts@;
        let mut iter = accounts.iter();
        let new_account_info = next_account_info(&mut iter)?;
        let dest_account_info = next_account_info(&mut iter)?;
        proof {
            assert(*new_account_info == before[0] && *dest_account_info == before[1]);
        }
        let updated = match State::load(program_id, dest_account_info)? {
            State::Account(dest_token_account) => {
                if !new_account_info.is_signer {
                    return Err(TokenError::InvalidArgument);
                }
                if new_account_info.key != dest_token_account.token {
                    return Err(TokenError::InvalidArgument);
                }
                if dest_token_account.delegate.is_some() {
                    return Err(TokenError::InvalidArgument);
                }
                TokenAccount {
                    token: dest_token_account.token,
                    owner: dest_token_account.owner,
                    amount: token.supply,
                    delegate: dest_token_account.delegate,
                }
            },
            _ => {
                return Err(TokenError::InvalidArgument);
            },
        };
        match State::load(program_id, new_account_info)? {
            State::Unallocated => {},
            _ => {
                return Err(TokenError::InvalidArgument);
            },
        }
        if new_account_info.data.len() < 1 + TOKEN_BYTES {
            return Err(TokenError::InvalidUserdata);
        }
        proof {
            updated.lemma_encoded_size();
            token.lemma_encoded_size();
        }
        State::Account(updated).store(&mut accounts[1])?;
        State::Token(token).store(&mut accounts[0])?;
        proof {
            assert(views(accounts@) =~= views(before).update(
                1,
                stored(views(before)[1], State::Account(updated)),
            ).update(0, stored(views(before)[0], State::Token(token))));
        }
        Ok(())
    }

    /// Creates an empty token account at position 0, for the owner at
    /// position 1 and the token at position 2, as a delegate of the account
    /// at position 3 where there is one.
    pub fn process_newaccount(
        program_id: &Pubkey,
        accounts: &mut [AccountInfo],
    ) -> (outcome: Result<(), TokenError>)
        ensures
            carried_out(
                views(old(accounts)@),
                newaccount_spec(*program_id, views(old(accounts)@)),
                outcome,
                views(final(accounts)@),
            ),
    {
        let ghost before = accounts@;
        let mut iter = accounts.iter();
        let new_account_info = next_account_info(&mut iter)?;
        let owner_account_info = next_account_info(&mut iter)?;
        let token_account_info = next_account_info(&mut iter)?;
        proof {
            assert(*new_account_info == before[0] && *owner_account_info == before[1]
                && *token_account_info == before[2]);
        }
        match State::load(program_id, new_account_info)? {
            State::Unallocated => {},
            _ => {
                return Err(TokenError::InvalidArgument);
            },
        }
        let mut token_account = TokenAccount {
            token: token_account_info.key,
            owner: owner_account_info.key,
            amount: 0,
            delegate: None,
        };
        if let Ok(delegate_account) = next_account_info(&mut iter) {
            proof {
                assert(*delegate_account == before[3]);
            }
            token_account.delegate = Some(
                TokenAccountDelegate { source: delegate_account.key, original_amount: 0 },
            );
        }
        if new_account_info.data.len() < 1 + TOKEN_ACCOUNT_BYTES {
            return Err(TokenError::InvalidUserdata);
        }
        proof {
            assert(token_account == fresh_account(views(before)));
            token_account.lemma_encoded_size();
        }
        State::Account(token_account).store(&mut accounts[0])?;
        proof {
            assert(views(accounts@) =~= views(before).update(
                0,
                stored(views(before)[0], State::Account(token_account)),
            ));
        }
        Ok(())
    }

    /// Moves `amount` from the account at position 1 to the account at
    /// position 2, on the signature of the owner at position 0. Where the
    /// account at position 1 is a delegate, the amount comes out of its
    /// allowance and out of the balance of the account at position 3.
    pub fn process_transfer(
        program_id: &Pubkey,
        accounts: &mut [AccountInfo],
        amount: u64,
    ) -> (outcome: Result<(), TokenError>)
        ensures
            carried_out(
                views(old(accounts)@),
                transfer_spec(*program_id, views(old(accounts)@), amount),
                outcome,
                views(final(accounts)@),
            ),
    {
        let ghost before = accounts@;
        let mut iter = accounts.iter();
        let owner_account_info = next_account_info(&mut iter)?;
        let source_account_info = next_account_info(&mut iter)?;
        let dest_account_info = next_account_info(&mut iter)?;
        proof {
            assert(*owner_account_info == before[0] && *source_account_info == before[1]
                && *dest_account_info == before[2]);
        }
        let source_state = State::load(program_id, source_account_info)?;
        let dest_state = State::load(program_id, dest_account_info)?;
        let (source_account, dest_account) = match (source_state, dest_state) {
            (State::Account(source_account), State::Account(dest_account)) => (
                source_account,
                dest_account,
            ),
            _ => {
                return Err(TokenError::InvalidArgument);
            },
        };
        if source_account.token != dest_account.token {
            return Err(TokenError::InvalidArgument);
        }
        if dest_account.delegate.is_some() {
            return Err(TokenError::InvalidArgument);
        }
        if !owner_account_info.is_signer || owner_account_info.key != source_account.owner {
            return Err(TokenError::InvalidArgument);
        }
        if source_account.amount < amount {
            return Err(TokenError::InsufficientFunds);
        }
        let debited_source = TokenAccount {
            token: source_account.token,
            owner: source_account.owner,
            amount: source_account.amount - amount,
            delegate: source_account.delegate,
        };
        let debited_payer = match source_account.delegate {
            None => None,
            Some(delegate) => {
                let payer_account_info = next_account_info(&mut iter)?;
                proof {
                    assert(*payer_account_info == before[3]);
                }
                match State::load(program_id, payer_account_info)? {
                    State::Account(payer_account) => {
                        if payer_account.token != source_account.token {
                            return Err(TokenError::InvalidArgument);
                        }
                        if payer_account_info.key != delegate.source {
                            return Err(TokenError::InvalidArgument);
                        }
                        if payer_account.amount < amount {
                            return Err(TokenError::InsufficientFunds);
                        }
                        Some(
                            TokenAccount {
                                token: payer_account.token,
                                owner: payer_account.owner,
                                amount: payer_account.amount - amount,
                                delegate: payer_account.delegate,
                            },
                        )
                    },
                    _ => {
                        return Err(TokenError::InvalidArgument);
                    },
                }
            },
        };
        if dest_account.amount > u64::MAX - amount {
            return Err(TokenError::InvalidArgument);
        }
        let credited_dest = TokenAccount {
            token: dest_account.token,
            owner: dest_account.owner,
            amount: dest_account.amount + amount,
            delegate: dest_account.delegate,
        };
        proof {
            debited_source.lemma_encoded_size();
            credited_dest.lemma_encoded_size();
        }
        State::Account(debited_source).store(&mut accounts[1])?;
        if let Some(payer_account) = debited_payer {
            proof {
                payer_account.lemma_encoded_size();
            }
            State::Account(payer_account).store(&mut accounts[3])?;
        }
        State::Account(credited_dest).store(&mut accounts[2])?;
        proof {
            let debited = views(before).update(
                1,
                stored(views(before)[1], State::Account(debited_source)),
            );
            match debited_payer {
                None => {
                    assert(views(accounts@) =~= debited.update(
                        2,
                        stored(debited[2], State::Account(credited_dest)),
                    ));
                },
                Some(payer_account) => {
                    let paid = debited.update(
                        3,
                        stored(debited[3], State::Account(payer_account)),
                    );
                    assert(views(accounts@) =~= paid.update(
                        2,
                        stored(paid[2], State::Account(credited_dest)),
                    ));
                },
            }
        }
        Ok(())
    }

    /// Sets the allowance of the delegate at position 2 to `amount`, on the
    /// signature of the owner, at position 0, of the source at position 1.
    pub fn process_approve(
        program_id: &Pubkey,
        accounts: &mut [AccountInfo],
        amount: u64,
    ) -> (outcome: Result<(), TokenError>)
        ensures
            carried_out(
                views(old(accounts)@),
                approve_spec(*program_id, views(old(accounts)@), amount),
                outcome,
                views(final(accounts)@),
            ),
    {
        let ghost before = accounts@;
        let mut iter = accounts.iter();
        let owner_account_info = next_account_info(&mut iter)?;
        let source_account_info = next_account_info(&mut iter)?;
        let delegate_account_info = next_account_info(&mut iter)?;
        proof {
            assert(*owner_account_info == before[0] && *source_account_info == before[1]
                && *delegate_account_info == before[2]);
        }
        let source_state = State::load(program_id, source_account_info)?;
        let delegate_state = State::load(program_id, delegate_account_info)?;
        let (source_account, delegate_account) = match (source_state, delegate_state) {
            (State::Account(source_account), State::Account(delegate_account)) => (
                source_account,
                delegate_account,
            ),
            _ => {
                return Err(TokenError::InvalidArgument);
            },
        };
        if source_account.token != delegate_account.token {
            return Err(TokenError::InvalidArgument);
        }
        if owner_account_info.key != source_account.owner || !owner_account_info.is_signer {
            return Err(TokenError::InvalidArgument);
        }
        if source_account.delegate.is_some() {
            return Err(TokenError::InvalidArgument);
        }
        let updated = match delegate_account.delegate {
            None => {
                return Err(TokenError::InvalidArgument);
            },
            Some(delegate) => {
                if source_account_info.key != delegate.source {
                    return Err(TokenError::InvalidArgument);
                }
                TokenAccount {
                    token: delegate_account.token,
                    owner: delegate_account.owner,
                    amount,
                    delegate: Some(
                        TokenAccountDelegate { source: delegate.source, original_amount: amount },
                    ),
                }
            },
        };
        proof {
            assert(updated == approved(delegate_account, amount));
            updated.lemma_encoded_size();
        }
        State::Account(updated).store(&mut accounts[2])?;
        proof {
            assert(views(accounts@) =~= views(before).update(
                2,
                stored(views(before)[2], State::Account(updated)),
            ));
        }
        Ok(())
    }

    /// Hands the account at position 1 to the owner at position 2, on the
    /// signature of the current owner at position 0.
    pub fn process_setowner(
        program_id: &Pubkey,
        accounts: &mut [AccountInfo],
    ) -> (outcome: Result<(), TokenError>)
        ensures
            carried_out(
                views(old(accounts)@),
                setowner_spec(*program_id, views(old(accounts)@)),
                outcome,
                views(final(accounts)@),
            ),
    {
        let ghost before = accounts@;
        let mut iter = accounts.iter();
        let owner_account_info = next_account_info(&mut iter)?;
        let dest_account_info = next_account_info(&mut iter)?;
        let new_owner_account_info = next_account_info(&mut iter)?;
        proof {
            assert(*owner_account_info == before[0] && *dest_account_info == before[1]
                && *new_owner_account_info == before[2]);
        }
        let updated = match State::load(program_id, dest_account_info)? {
            State::Account(dest_account) => {
                if owner_account_info.key != dest_account.owner || !owner_account_info.is_signer {
                    return Err(TokenError::InvalidArgument);
                }
                TokenAccount {
                    token: dest_account.token,
                    owner: new_owner_account_info.key,
                    amount: dest_account.amount,
                    delegate: dest_account.delegate,
                }
            },
            _ => {
                return Err(TokenError::InvalidArgument);
            },
        };
        proof {
            updated.lemma_encoded_size();
        }
        State::Account(updated).store(&mut accounts[1])?;
        proof {
            assert(views(accounts@) =~= views(before).update(
                1,
                stored(views(before)[1], State::Account(updated)),
            ));
        }
        Ok(())
    }

    /// Carries out the instruction that `input` stands for on `accounts`.
    pub fn process(
        program_id: &Pubkey,
        accounts: &mut [AccountInfo],
        input: &[u8],
    ) -> (outcome: Result<(), TokenError>)
        ensures
            carried_out(
                views(old(accounts)@),
                process_spec(*program_id, views(old(accounts)@), input@),
                outcome,
                views(final(accounts)@),
            ),
    {
        let command = Command::deserialize(input)?;
        match command {
            Command::NewToken(token) => Self::process_newtoken(program_id, accounts, token),
            Command::NewTokenAccount => Self::process_newaccount(program_id, accounts),
            Command::Transfer(amount) => Self::process_transfer(program_id, accounts, amount),
            Command::Approve(amount) => Self::process_approve(program_id, accounts, amount),
            Command::SetOwner => Self::process_setowner(program_id, accounts),
        }
    }
}

/// Carries out the instruction that `input` stands for on `accounts` and
/// reports to the host how it went: `SUCCESS` with the accounts that the
/// instruction's rule gives, or `FAILURE` with every account left as it was.
pub fn process_instruction(
    program_id: &Pubkey,
    accounts: &mut [AccountInfo],
    input: &[u8],
) -> (status: u32)
    ensures
        match process_spec(*program_id, views(old(accounts)@), input@) {
            Ok(after) => status == SUCCESS && views(final(accounts)@) == after,
            Err(_) => status == FAILURE && views(final(accounts)@) == views(old(accounts)@),
        },
{
    match State::process(program_id, accounts, input) {
        Ok(_) => SUCCESS,
        Err(_) => FAILURE,
    }
}

} // verus!
