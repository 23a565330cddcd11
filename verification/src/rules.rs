//! The five rules of the token program, stated over the accounts as contracts
//! speak of them. Each rule says for every list of accounts either which
//! accounts result from it or with which error it is refused. A rule reads
//! the accounts by position alone and never looks one up by its identity.

use vstd::prelude::*;
use crate::account::AccountView;
use crate::bytes::overwrite;
use crate::error::TokenError;
use crate::pubkey::Pubkey;
use crate::state::{Command, State, Token, TokenAccount, TokenAccountDelegate};

verus! {

/// What a rule makes of a list of accounts: the accounts after it, or the
/// error with which it is refused.
pub type Verdict = Result<Seq<AccountView>, TokenError>;

/// The state that the program `program_id` sees in `account`. An account of
/// another program is `Invalid` whatever its buffer holds; the program's own
/// accounts hold what their buffers stand for.
pub open spec fn loaded(program_id: Pubkey, account: AccountView) -> Result<State, TokenError> {
    if account.owner != program_id {
        Ok(State::Invalid)
    } else {
        State::spec_deserialize(account.data)
    }
}

/// The account `account` with `state` written over the front of its buffer.
pub open spec fn stored(account: AccountView, state: State) -> AccountView {
    AccountView {
        key: account.key,
        is_signer: account.is_signer,
        data: overwrite(account.data, 0, state.spec_encode()),
        owner: account.owner,
    }
}

/// The token account `account` with its amount set to `amount`.
pub open spec fn with_amount(account: TokenAccount, amount: u64) -> TokenAccount {
    TokenAccount {
        token: account.token,
        owner: account.owner,
        amount,
        delegate: account.delegate,
    }
}

/// The token account `account` in the hands of `owner`.
pub open spec fn with_owner(account: TokenAccount, owner: Pubkey) -> TokenAccount {
    TokenAccount {
        token: account.token,
        owner,
        amount: account.amount,
        delegate: account.delegate,
    }
}

/// Whether the account at `signer` has signed and is the owner of `account`.
pub open spec fn signed_by_owner(signer: AccountView, account: TokenAccount) -> bool {
    signer.is_signer && signer.key == account.owner
}

/// `NewToken`: position 0 is the new token, position 1 the account that
/// receives the supply.
///
/// The receiving account must be a token account of the new token and no
/// delegate, the new token must have signed, and its buffer must be
/// unallocated and long enough for a token. Then the receiving account's
/// amount becomes the supply and the token is written to position 0.
pub open spec fn newtoken_spec(
    program_id: Pubkey,
    accounts: Seq<AccountView>,
    token: Token,
) -> Verdict {
    if accounts.len() < 2 {
        Err(TokenError::NotEnoughAccountKeys)
    } else {
        match loaded(program_id, accounts[1]) {
            Err(e) => Err(e),
            Ok(State::Account(dest)) => {
                if !accounts[0].is_signer || accounts[0].key != dest.token
                    || dest.delegate.is_some() {
                    Err(TokenError::InvalidArgument)
                } else {
                    match loaded(program_id, accounts[0]) {
                        Err(e) => Err(e),
                        Ok(State::Unallocated) => {
                            if accounts[0].data.len() < 10 {
                                Err(TokenError::InvalidUserdata)
                            } else {
                                Ok(
                                    accounts.update(
                                        1,
                                        stored(
                                            accounts[1],
                                            State::Account(with_amount(dest, token.supply)),
                                        ),
                                    ).update(0, stored(accounts[0], State::Token(token))),
                                )
                            }
                        },
                        Ok(_) => Err(TokenError::InvalidArgument),
                    }
                }
            },
            Ok(_) => Err(TokenError::InvalidArgument),
        }
    }
}

/// The account that `NewTokenAccount` creates from `accounts`: it holds the
/// token at position 2, belongs to the owner at position 1, and is empty.
/// Where a fourth account is given, the new account is a delegate of it with
/// nothing authorised yet.
pub open spec fn fresh_account(accounts: Seq<AccountView>) -> TokenAccount {
    TokenAccount {
        token: accounts[2].key,
        owner: accounts[1].key,
        amount: 0,
        delegate: if accounts.len() > 3 {
            Some(TokenAccountDelegate { source: accounts[3].key, original_amount: 0 })
        } else {
            None
        },
    }
}

/// `NewTokenAccount`: position 0 is the new account, position 1 its owner,
/// position 2 its token, and position 3, if present, the account it is a
/// delegate for.
///
/// The buffer at position 0 must be unallocated and long enough for an
/// account. Then the fresh account is written to it.
pub open spec fn newaccount_spec(program_id: Pubkey, accounts: Seq<AccountView>) -> Verdict {
    if accounts.len() < 3 {
        Err(TokenError::NotEnoughAccountKeys)
    } else {
        match loaded(program_id, accounts[0]) {
            Err(e) => Err(e),
            Ok(State::Unallocated) => {
                if accounts[0].data.len() < 114 {
                    Err(TokenError::InvalidUserdata)
                } else {
                    Ok(
                        accounts.update(
                            0,
                            stored(accounts[0], State::Account(fresh_account(accounts))),
                        ),
                    )
                }
            },
            Ok(_) => Err(TokenError::InvalidArgument),
        }
    }
}

/// The last step of a transfer: `amount` is added to the destination `dest`
/// at position 2. An amount that the destination cannot hold is refused.
pub open spec fn credited(accounts: Seq<AccountView>, amount: u64, dest: TokenAccount) -> Verdict {
    if dest.amount + amount > u64::MAX {
        Err(TokenError::InvalidArgument)
    } else {
        Ok(
            accounts.update(
                2,
                stored(
                    accounts[2],
                    State::Account(with_amount(dest, (dest.amount + amount) as u64)),
                ),
            ),
        )
    }
}

/// The second tier of a transfer through a delegate: the account at
/// position 3 is the one that the delegate `delegate` spends from. It must be
/// a token account of the token `token`, be the recorded source, and hold at
/// least `amount`, which is taken from it.
pub open spec fn debited_payer(
    program_id: Pubkey,
    accounts: Seq<AccountView>,
    amount: u64,
    token: Pubkey,
    delegate: TokenAccountDelegate,
) -> Verdict {
    if accounts.len() < 4 {
        Err(TokenError::NotEnoughAccountKeys)
    } else {
        match loaded(program_id, accounts[3]) {
            Err(e) => Err(e),
            Ok(State::Account(payer)) => {
                if payer.token != token || accounts[3].key != delegate.source {
                    Err(TokenError::InvalidArgument)
                } else if payer.amount < amount {
                    Err(TokenError::InsufficientFunds)
                } else {
                    Ok(
                        accounts.update(
                            3,
                            stored(
                                accounts[3],
                                State::Account(with_amount(payer, (payer.amount - amount) as u64)),
                            ),
                        ),
                    )
                }
            },
            Ok(_) => Err(TokenError::InvalidArgument),
        }
    }
}

/// A transfer of `amount` from the token account `source` at position 1 to
/// the token account `dest` at position 2.
///
/// Both must hold the same token, the destination must be no delegate, and
/// the owner of the source, at position 0, must have signed. The source must
/// hold at least `amount`, which is taken from it. Where the source is a
/// delegate, its amount is an allowance, and the amount is also taken from
/// the account it spends from. Last, the amount is added to the destination.
pub open spec fn transfer_between(
    program_id: Pubkey,
    accounts: Seq<AccountView>,
    amount: u64,
    source: TokenAccount,
    dest: TokenAccount,
) -> Verdict {
    if source.token != dest.token || dest.delegate.is_some() || !signed_by_owner(
        accounts[0],
        source,
    ) {
        Err(TokenError::InvalidArgument)
    } else if source.amount < amount {
        Err(TokenError::InsufficientFunds)
    } else {
        let debited = accounts.update(
            1,
            stored(
                accounts[1],
                State::Account(with_amount(source, (source.amount - amount) as u64)),
            ),
        );
        match source.delegate {
            None => credited(debited, amount, dest),
            Some(delegate) => match debited_payer(
                program_id,
                debited,
                amount,
                source.token,
                delegate,
            ) {
                Err(e) => Err(e),
                Ok(paid) => credited(paid, amount, dest),
            },
        }
    }
}

/// `Transfer`: position 0 is the owner of the source, position 1 the source
/// or a delegate of it, position 2 the destination, and position 3, where
/// position 1 is a delegate, the account that the delegate spends from.
pub open spec fn transfer_spec(
    program_id: Pubkey,
    accounts: Seq<AccountView>,
    amount: u64,
) -> Verdict {
    if accounts.len() < 3 {
        Err(TokenError::NotEnoughAccountKeys)
    } else {
        match (loaded(program_id, accounts[1]), loaded(program_id, accounts[2])) {
            (Err(e), _) => Err(e),
            (Ok(_), Err(e)) => Err(e),
            (Ok(State::Account(source)), Ok(State::Account(dest))) => transfer_between(
                program_id,
                accounts,
                amount,
                source,
                dest,
            ),
            (Ok(_), Ok(_)) => Err(TokenError::InvalidArgument),
        }
    }
}

/// The delegate `delegate` with `amount` as its allowance and as the amount
/// that was authorised.
pub open spec fn approved(delegate: TokenAccount, amount: u64) -> TokenAccount {
    TokenAccount {
        token: delegate.token,
        owner: delegate.owner,
        amount,
        delegate: Some(
            TokenAccountDelegate {
                source: delegate.delegate.unwrap().source,
                original_amount: amount,
            },
        ),
    }
}

/// `Approve`: position 0 is the owner of the source, position 1 the source,
/// position 2 the delegate.
///
/// Source and delegate must be token accounts of the same token, the owner
/// of the source must have signed, the source must be no delegate itself,
/// and the delegate must be a delegate of the source. Then the allowance of
/// the delegate is set to the amount; it replaces what was left of an
/// earlier one.
pub open spec fn approve_spec(
    program_id: Pubkey,
    accounts: Seq<AccountView>,
    amount: u64,
) -> Verdict {
    if accounts.len() < 3 {
        Err(TokenError::NotEnoughAccountKeys)
    } else {
        match (loaded(program_id, accounts[1]), loaded(program_id, accounts[2])) {
            (Err(e), _) => Err(e),
            (Ok(_), Err(e)) => Err(e),
            (Ok(State::Account(source)), Ok(State::Account(delegate))) => {
                if source.token != delegate.token || !signed_by_owner(accounts[0], source)
                    || source.delegate.is_some() || delegate.delegate.is_none()
                    || accounts[1].key != delegate.delegate.unwrap().source {
                    Err(TokenError::InvalidArgument)
                } else {
                    Ok(
                        accounts.update(
                            2,
                            stored(accounts[2], State::Account(approved(delegate, amount))),
                        ),
                    )
                }
            },
            (Ok(_), Ok(_)) => Err(TokenError::InvalidArgument),
        }
    }
}

/// `SetOwner`: position 0 is the current owner, position 1 the account,
/// position 2 the new owner.
///
/// The account must be a token account and its owner must have signed. Then
/// the account belongs to the new owner.
pub open spec fn setowner_spec(program_id: Pubkey, accounts: Seq<AccountView>) -> Verdict {
    if accounts.len() < 3 {
        Err(TokenError::NotEnoughAccountKeys)
    } else {
        match loaded(program_id, accounts[1]) {
            Err(e) => Err(e),
            Ok(State::Account(account)) => {
                if !signed_by_owner(accounts[0], account) {
                    Err(TokenError::InvalidArgument)
                } else {
                    Ok(
                        accounts.update(
                            1,
                            stored(
                                accounts[1],
                                State::Account(with_owner(account, accounts[2].key)),
                            ),
                        ),
                    )
                }
            },
            Ok(_) => Err(TokenError::InvalidArgument),
        }
    }
}

/// What the instruction `command` makes of `accounts`.
pub open spec fn command_spec(
    program_id: Pubkey,
    accounts: Seq<AccountView>,
    command: Command,
) -> Verdict {
    match command {
        Command::NewToken(token) => newtoken_spec(program_id, accounts, token),
        Command::NewTokenAccount => newaccount_spec(program_id, accounts),
        Command::Transfer(amount) => transfer_spec(program_id, accounts, amount),
        Command::Approve(amount) => approve_spec(program_id, accounts, amount),
        Command::SetOwner => setowner_spec(program_id, accounts),
    }
}

/// What the instruction with the byte form `input` makes of `accounts`. An
/// input that stands for no instruction is refused before any account is
/// looked at.
pub open spec fn process_spec(
    program_id: Pubkey,
    accounts: Seq<AccountView>,
    input: Seq<u8>,
) -> Verdict {
    match Command::spec_deserialize(input) {
        Err(e) => Err(e),
        Ok(command) => command_spec(program_id, accounts, command),
    }
}

/// Whether a processor that was to carry out the verdict `expected` on the
/// accounts `before` has done so: where the verdict holds accounts, it
/// succeeded and left those accounts; where the verdict holds an error, it
/// failed with that error and left every account as it was.
pub open spec fn carried_out(
    before: Seq<AccountView>,
    expected: Verdict,
    outcome: Result<(), TokenError>,
    after: Seq<AccountView>,
) -> bool {
    match expected {
        Ok(accounts) => outcome.is_ok() && after == accounts,
        Err(e) => outcome == Err::<(), TokenError>(e) && after == before,
    }
}

} // verus!
