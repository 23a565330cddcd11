//! What holds of the rules whatever the accounts are.

use vstd::prelude::*;
use crate::account::AccountView;
use crate::error::TokenError;
use crate::pubkey::Pubkey;
use crate::rules::{
    approve_spec, approved, command_spec, fresh_account, loaded, newaccount_spec, newtoken_spec,
    process_spec, setowner_spec, signed_by_owner, stored, transfer_spec, with_amount, with_owner,
};
use crate::simple_serde::SimpleSerde;
use crate::state::{Command, State, Token, TokenAccount};

verus! {

/// A buffer that is empty, or too short for the record that its tag
/// announces, stands for no state.
pub proof fn lemma_short_buffer_rejected(input: Seq<u8>)
    requires
        input.len() == 0 || (input[0] == 1 && input.len() < 10) || (input[0] == 2 && input.len()
            < 114),
    ensures
        State::spec_deserialize(input) == Err::<State, TokenError>(TokenError::InvalidUserdata),
{
}

/// A tag other than 0, 1 and 2 stands for no state.
pub proof fn lemma_unknown_tag_rejected(input: Seq<u8>)
    requires
        input.len() > 0,
        input[0] > 2,
    ensures
        State::spec_deserialize(input) == Err::<State, TokenError>(TokenError::InvalidUserdata),
{
}

/// `Unallocated` and `Invalid` are never written, whatever the buffer.
pub proof fn lemma_no_payload_never_written(state: State, buffer: Seq<u8>)
    requires
        state is Unallocated || state is Invalid,
    ensures
        state.spec_serialize(buffer) == Err::<Seq<u8>, TokenError>(
            TokenError::UnserializableState,
        ),
{
}

/// No buffer stands for `Invalid`: the program only ever sees that state in
/// an account that belongs to another program.
pub proof fn lemma_invalid_means_foreign(program_id: Pubkey, account: AccountView)
    ensures
        loaded(program_id, account) == Ok::<State, TokenError>(State::Invalid) <==> account.owner
            != program_id,
{
}

/// An account in which the program sees a token or a token account belongs
/// to the program and has a buffer with room for that record.
pub proof fn lemma_record_has_room(program_id: Pubkey, account: AccountView)
    ensures
        loaded(program_id, account) matches Ok(State::Token(_)) ==> account.owner == program_id
            && account.data.len() >= 10,
        loaded(program_id, account) matches Ok(State::Account(_)) ==> account.owner == program_id
            && account.data.len() >= 114,
{
}

/// A token or a token account that was stored in an account of the program
/// with room for it is what the program then sees in that account. Storing
/// changes nothing but the front of the buffer.
pub proof fn lemma_stored_then_loaded(program_id: Pubkey, account: AccountView, state: State)
    requires
        account.owner == program_id,
        state.spec_serialize(account.data).is_ok(),
    ensures
        loaded(program_id, stored(account, state)) == Ok::<State, TokenError>(state),
        stored(account, state).key == account.key,
        stored(account, state).is_signer == account.is_signer,
        stored(account, state).owner == account.owner,
        stored(account, state).data.len() == account.data.len(),
{
    state.lemma_serialize_then_deserialize(account.data);
}

/// Minting: where the token at position 0 has signed and is still
/// unallocated, with room for a token, and the account at position 1 holds
/// that token and is no delegate, `NewToken` succeeds. Afterwards the program
/// sees the token at position 0, and at position 1 the same account with the
/// whole supply as its amount.
pub proof fn lemma_newtoken_then_read(
    program_id: Pubkey,
    accounts: Seq<AccountView>,
    token: Token,
    dest: TokenAccount,
)
    requires
        accounts.len() >= 2,
        accounts[0].is_signer,
        accounts[0].data.len() >= 10,
        loaded(program_id, accounts[0]) == Ok::<State, TokenError>(State::Unallocated),
        loaded(program_id, accounts[1]) == Ok::<State, TokenError>(State::Account(dest)),
        dest.token == accounts[0].key,
        dest.delegate.is_none(),
    ensures
        newtoken_spec(program_id, accounts, token) matches Ok(after) && {
            &&& after.len() == accounts.len()
            &&& loaded(program_id, after[0]) == Ok::<State, TokenError>(State::Token(token))
            &&& loaded(program_id, after[1]) == Ok::<State, TokenError>(
                State::Account(with_amount(dest, token.supply)),
            )
            &&& forall|i: int| 2 <= i < accounts.len() ==> after[i] == accounts[i]
        },
{
    lemma_record_has_room(program_id, accounts[1]);
    with_amount(dest, token.supply).lemma_encoded_size();
    token.lemma_encoded_size();
    lemma_stored_then_loaded(
        program_id,
        accounts[1],
        State::Account(with_amount(dest, token.supply)),
    );
    lemma_stored_then_loaded(program_id, accounts[0], State::Token(token));
}

/// Creating an account: where the buffer at position 0 is unallocated, with
/// room for an account, `NewTokenAccount` succeeds, and the program then sees
/// the fresh account there: empty, of the token at position 2, owned by
/// position 1.
pub proof fn lemma_newaccount_then_read(program_id: Pubkey, accounts: Seq<AccountView>)
    requires
        accounts.len() >= 3,
        accounts[0].data.len() >= 114,
        loaded(program_id, accounts[0]) == Ok::<State, TokenError>(State::Unallocated),
    ensures
        newaccount_spec(program_id, accounts) matches Ok(after) && {
            &&& after.len() == accounts.len()
            &&& loaded(program_id, after[0]) == Ok::<State, TokenError>(
                State::Account(fresh_account(accounts)),
            )
            &&& forall|i: int| 1 <= i < accounts.len() ==> after[i] == accounts[i]
        },
        fresh_account(accounts).amount == 0,
        fresh_account(accounts).delegate.is_some() <==> accounts.len() > 3,
{
    fresh_account(accounts).lemma_encoded_size();
    lemma_stored_then_loaded(program_id, accounts[0], State::Account(fresh_account(accounts)));
}

/// A transfer between two plain accounts: where source and destination hold
/// the same token, neither is a delegate, the owner of the source has
/// signed, the source holds the amount and the destination can take it, the
/// transfer succeeds. Afterwards the source holds the amount less and the
/// destination the amount more, and no other account has changed.
pub proof fn lemma_transfer_moves_amount(
    program_id: Pubkey,
    accounts: Seq<AccountView>,
    amount: u64,
    source: TokenAccount,
    dest: TokenAccount,
)
    requires
        accounts.len() >= 3,
        loaded(program_id, accounts[1]) == Ok::<State, TokenError>(State::Account(source)),
        loaded(program_id, accounts[2]) == Ok::<State, TokenError>(State::Account(dest)),
        source.token == dest.token,
        source.delegate.is_none(),
        dest.delegate.is_none(),
        signed_by_owner(accounts[0], source),
        amount <= source.amount,
        dest.amount + amount <= u64::MAX,
    ensures
        transfer_spec(program_id, accounts, amount) matches Ok(after) && {
            &&& after.len() == accounts.len()
            &&& loaded(program_id, after[1]) == Ok::<State, TokenError>(
                State::Account(with_amount(source, (source.amount - amount) as u64)),
            )
            &&& loaded(program_id, after[2]) == Ok::<State, TokenError>(
                State::Account(with_amount(dest, (dest.amount + amount) as u64)),
            )
            &&& forall|i: int|
                0 <= i < accounts.len() && i != 1 && i != 2 ==> after[i] == accounts[i]
        },
{
    let new_source = with_amount(source, (source.amount - amount) as u64);
    let new_dest = with_amount(dest, (dest.amount + amount) as u64);
    lemma_record_has_room(program_id, accounts[1]);
    lemma_record_has_room(program_id, accounts[2]);
    new_source.lemma_encoded_size();
    new_dest.lemma_encoded_size();
    lemma_stored_then_loaded(program_id, accounts[1], State::Account(new_source));
    lemma_stored_then_loaded(program_id, accounts[2], State::Account(new_dest));
}

/// A transfer of more than the source holds fails with `InsufficientFunds`,
/// where source and destination are otherwise in order.
pub proof fn lemma_transfer_insufficient_funds(
    program_id: Pubkey,
    accounts: Seq<AccountView>,
    amount: u64,
    source: TokenAccount,
    dest: TokenAccount,
)
    requires
        accounts.len() >= 3,
        loaded(program_id, accounts[1]) == Ok::<State, TokenError>(State::Account(source)),
        loaded(program_id, accounts[2]) == Ok::<State, TokenError>(State::Account(dest)),
        source.token == dest.token,
        dest.delegate.is_none(),
        signed_by_owner(accounts[0], source),
        source.amount < amount,
    ensures
        transfer_spec(program_id, accounts, amount) == Err::<Seq<AccountView>, TokenError>(
            TokenError::InsufficientFunds,
        ),
{
}

/// A transfer through a delegate: where the delegate at position 1 and the
/// destination hold the same token, the destination is no delegate, the
/// owner of the delegate has signed, the account at position 3 is the one
/// that the delegate spends from and holds that token too, the amount is
/// within the allowance and within the balance at position 3, and the
/// destination can take it, the transfer succeeds. Afterwards the allowance
/// and the balance at position 3 are the amount less, and the destination
/// holds the amount more.
pub proof fn lemma_delegate_transfer_moves_amount(
    program_id: Pubkey,
    accounts: Seq<AccountView>,
    amount: u64,
    delegate: TokenAccount,
    dest: TokenAccount,
    payer: TokenAccount,
)
    requires
        accounts.len() >= 4,
        loaded(program_id, accounts[1]) == Ok::<State, TokenError>(State::Account(delegate)),
        loaded(program_id, accounts[2]) == Ok::<State, TokenError>(State::Account(dest)),
        loaded(program_id, accounts[3]) == Ok::<State, TokenError>(State::Account(payer)),
        delegate.token == dest.token,
        delegate.token == payer.token,
        dest.delegate.is_none(),
        signed_by_owner(accounts[0], delegate),
        delegate.delegate matches Some(d) && d.source == accounts[3].key,
        amount <= delegate.amount,
        amount <= payer.amount,
        dest.amount + amount <= u64::MAX,
    ensures
        transfer_spec(program_id, accounts, amount) matches Ok(after) && {
            &&& after.len() == accounts.len()
            &&& loaded(program_id, after[1]) == Ok::<State, TokenError>(
                State::Account(with_amount(delegate, (delegate.amount - amount) as u64)),
            )
            &&& loaded(program_id, after[2]) == Ok::<State, TokenError>(
                State::Account(with_amount(dest, (dest.amount + amount) as u64)),
            )
            &&& loaded(program_id, after[3]) == Ok::<State, TokenError>(
                State::Account(with_amount(payer, (payer.amount - amount) as u64)),
            )
            &&& forall|i: int|
                0 <= i < accounts.len() && i != 1 && i != 2 && i != 3 ==> after[i] == accounts[i]
        },
{
    let new_delegate = with_amount(delegate, (delegate.amount - amount) as u64);
    let new_dest = with_amount(dest, (dest.amount + amount) as u64);
    let new_payer = with_amount(payer, (payer.amount - amount) as u64);
    lemma_record_has_room(program_id, accounts[1]);
    lemma_record_has_room(program_id, accounts[2]);
    lemma_record_has_room(program_id, accounts[3]);
    new_delegate.lemma_encoded_size();
    new_dest.lemma_encoded_size();
    new_payer.lemma_encoded_size();
    lemma_stored_then_loaded(program_id, accounts[1], State::Account(new_delegate));
    lemma_stored_then_loaded(program_id, accounts[2], State::Account(new_dest));
    lemma_stored_then_loaded(program_id, accounts[3], State::Account(new_payer));
}

/// The two tiers of a transfer through a delegate, where everything but the
/// amounts is in order: an amount above the allowance fails with
/// `InsufficientFunds` whatever the account at position 3 holds, and so does
/// an amount within the allowance but above the balance at position 3.
pub proof fn lemma_delegate_transfer_two_tiers(
    program_id: Pubkey,
    accounts: Seq<AccountView>,
    amount: u64,
    delegate: TokenAccount,
    dest: TokenAccount,
    payer: TokenAccount,
)
    requires
        accounts.len() >= 4,
        loaded(program_id, accounts[1]) == Ok::<State, TokenError>(State::Account(delegate)),
        loaded(program_id, accounts[2]) == Ok::<State, TokenError>(State::Account(dest)),
        loaded(program_id, accounts[3]) == Ok::<State, TokenError>(State::Account(payer)),
        delegate.token == dest.token,
        delegate.token == payer.token,
        dest.delegate.is_none(),
        signed_by_owner(accounts[0], delegate),
        delegate.delegate matches Some(d) && d.source == accounts[3].key,
        delegate.amount < amount || payer.amount < amount,
    ensures
        transfer_spec(program_id, accounts, amount) == Err::<Seq<AccountView>, TokenError>(
            TokenError::InsufficientFunds,
        ),
{
    if delegate.amount >= amount {
        let new_delegate = with_amount(delegate, (delegate.amount - amount) as u64);
        let debited = accounts.update(1, stored(accounts[1], State::Account(new_delegate)));
        assert(debited[3] == accounts[3]);
    }
}

/// A transfer from an account that is no delegate looks at the first three
/// accounts only: no allowance that some delegate of the source may hold, and
/// nothing else behind position 2, decides whether it succeeds.
pub proof fn lemma_plain_transfer_reads_three_accounts(
    program_id: Pubkey,
    accounts: Seq<AccountView>,
    others: Seq<AccountView>,
    amount: u64,
    source: TokenAccount,
)
    requires
        accounts.len() >= 3,
        others.len() >= 3,
        forall|i: int| 0 <= i < 3 ==> others[i] == accounts[i],
        loaded(program_id, accounts[1]) == Ok::<State, TokenError>(State::Account(source)),
        source.delegate.is_none(),
    ensures
        match (
            transfer_spec(program_id, accounts, amount),
            transfer_spec(program_id, others, amount),
        ) {
            (Ok(after), Ok(after_others)) => forall|i: int|
                0 <= i < 3 ==> after[i] == after_others[i],
            (Err(e), Err(e_others)) => e == e_others,
            _ => false,
        },
{
}

/// Setting the allowance: where everything is in order, `Approve` succeeds,
/// and the delegate then has the amount as its allowance and as the amount
/// that was authorised, whatever allowance it had before. The source does
/// not change.
pub proof fn lemma_approve_sets_allowance(
    program_id: Pubkey,
    accounts: Seq<AccountView>,
    amount: u64,
    source: TokenAccount,
    delegate: TokenAccount,
)
    requires
        accounts.len() >= 3,
        loaded(program_id, accounts[1]) == Ok::<State, TokenError>(State::Account(source)),
        loaded(program_id, accounts[2]) == Ok::<State, TokenError>(State::Account(delegate)),
        source.token == delegate.token,
        signed_by_owner(accounts[0], source),
        source.delegate.is_none(),
        delegate.delegate matches Some(d) && d.source == accounts[1].key,
    ensures
        approve_spec(program_id, accounts, amount) matches Ok(after) && {
            &&& after.len() == accounts.len()
            &&& loaded(program_id, after[2]) == Ok::<State, TokenError>(
                State::Account(approved(delegate, amount)),
            )
            &&& forall|i: int| 0 <= i < accounts.len() && i != 2 ==> after[i] == accounts[i]
        },
        approved(delegate, amount).amount == amount,
        approved(delegate, amount).delegate.unwrap().original_amount == amount,
        approved(delegate, amount).delegate.unwrap().source == accounts[1].key,
{
    lemma_record_has_room(program_id, accounts[2]);
    approved(delegate, amount).lemma_encoded_size();
    lemma_stored_then_loaded(program_id, accounts[2], State::Account(approved(delegate, amount)));
}

/// `SetOwner` without the signature of the current owner fails with
/// `InvalidArgument`.
pub proof fn lemma_setowner_unauthorized(
    program_id: Pubkey,
    accounts: Seq<AccountView>,
    account: TokenAccount,
)
    requires
        accounts.len() >= 3,
        loaded(program_id, accounts[1]) == Ok::<State, TokenError>(State::Account(account)),
        !accounts[0].is_signer || accounts[0].key != account.owner,
    ensures
        setowner_spec(program_id, accounts) == Err::<Seq<AccountView>, TokenError>(
            TokenError::InvalidArgument,
        ),
{
}

/// `SetOwner` with the signature of the current owner succeeds, and the
/// account then belongs to the owner at position 2, with its token, amount
/// and delegate as they were.
pub proof fn lemma_setowner_hands_over(
    program_id: Pubkey,
    accounts: Seq<AccountView>,
    account: TokenAccount,
)
    requires
        accounts.len() >= 3,
        loaded(program_id, accounts[1]) == Ok::<State, TokenError>(State::Account(account)),
        signed_by_owner(accounts[0], account),
    ensures
        setowner_spec(program_id, accounts) matches Ok(after) && {
            &&& after.len() == accounts.len()
            &&& loaded(program_id, after[1]) == Ok::<State, TokenError>(
                State::Account(with_owner(account, accounts[2].key)),
            )
            &&& forall|i: int| 0 <= i < accounts.len() && i != 1 ==> after[i] == accounts[i]
        },
{
    lemma_record_has_room(program_id, accounts[1]);
    with_owner(account, accounts[2].key).lemma_encoded_size();
    lemma_stored_then_loaded(
        program_id,
        accounts[1],
        State::Account(with_owner(account, accounts[2].key)),
    );
}

/// The account that the program sees in `account`, where it sees one.
pub open spec fn account_in(program_id: Pubkey, account: AccountView) -> TokenAccount {
    loaded(program_id, account)->Ok_0->Account_0
}

/// Whether the program sees a token account in `account`.
pub open spec fn holds_account(program_id: Pubkey, account: AccountView) -> bool {
    loaded(program_id, account) matches Ok(State::Account(_))
}

/// `NewToken` succeeds only where the token at position 0 has signed and is
/// unallocated, and the account at position 1 is a token account of that
/// token and no delegate.
pub proof fn lemma_newtoken_success_means(
    program_id: Pubkey,
    accounts: Seq<AccountView>,
    token: Token,
)
    requires
        newtoken_spec(program_id, accounts, token).is_ok(),
    ensures
        accounts.len() >= 2,
        accounts[0].is_signer,
        accounts[0].data.len() >= 10,
        loaded(program_id, accounts[0]) == Ok::<State, TokenError>(State::Unallocated),
        holds_account(program_id, accounts[1]),
        account_in(program_id, accounts[1]).token == accounts[0].key,
        account_in(program_id, accounts[1]).delegate.is_none(),
{
}

/// `NewTokenAccount` succeeds only where the buffer at position 0 is
/// unallocated and has room for an account.
pub proof fn lemma_newaccount_success_means(program_id: Pubkey, accounts: Seq<AccountView>)
    requires
        newaccount_spec(program_id, accounts).is_ok(),
    ensures
        accounts.len() >= 3,
        accounts[0].data.len() >= 114,
        loaded(program_id, accounts[0]) == Ok::<State, TokenError>(State::Unallocated),
{
}

/// `Transfer` succeeds only where source and destination are token accounts
/// of the same token, the destination is no delegate, the owner of the
/// source has signed, the source holds the amount and the destination can
/// take it; and, where the source is a delegate, only where the account at
/// position 3 is a token account of that token, is the one that the delegate
/// spends from, and holds the amount.
pub proof fn lemma_transfer_success_means(
    program_id: Pubkey,
    accounts: Seq<AccountView>,
    amount: u64,
)
    requires
        transfer_spec(program_id, accounts, amount).is_ok(),
    ensures
        accounts.len() >= 3,
        holds_account(program_id, accounts[1]),
        holds_account(program_id, accounts[2]),
        ({
            let source = account_in(program_id, accounts[1]);
            let dest = account_in(program_id, accounts[2]);
            &&& source.token == dest.token
            &&& dest.delegate.is_none()
            &&& signed_by_owner(accounts[0], source)
            &&& amount <= source.amount
            &&& dest.amount + amount <= u64::MAX
            &&& source.delegate matches Some(d) ==> {
                &&& accounts.len() >= 4
                &&& holds_account(program_id, accounts[3])
                &&& account_in(program_id, accounts[3]).token == source.token
                &&& accounts[3].key == d.source
                &&& amount <= account_in(program_id, accounts[3]).amount
            }
        }),
{
    let source = account_in(program_id, accounts[1]);
    if source.delegate.is_some() {
        let debited = accounts.update(
            1,
            stored(
                accounts[1],
                State::Account(with_amount(source, (source.amount - amount) as u64)),
            ),
        );
        assert(debited[3] == accounts[3]);
    }
}

/// `Approve` succeeds only where source and delegate are token accounts of
/// the same token, the owner of the source has signed, the source is no
/// delegate, and the delegate is a delegate of the source.
pub proof fn lemma_approve_success_means(
    program_id: Pubkey,
    accounts: Seq<AccountView>,
    amount: u64,
)
    requires
        approve_spec(program_id, accounts, amount).is_ok(),
    ensures
        accounts.len() >= 3,
        holds_account(program_id, accounts[1]),
        holds_account(program_id, accounts[2]),
        ({
            let source = account_in(program_id, accounts[1]);
            let delegate = account_in(program_id, accounts[2]);
            &&& source.token == delegate.token
            &&& signed_by_owner(accounts[0], source)
            &&& source.delegate.is_none()
            &&& delegate.delegate matches Some(d) && d.source == accounts[1].key
        }),
{
}

/// `SetOwner` succeeds only where the account at position 1 is a token
/// account and its owner, at position 0, has signed.
pub proof fn lemma_setowner_success_means(program_id: Pubkey, accounts: Seq<AccountView>)
    requires
        setowner_spec(program_id, accounts).is_ok(),
    ensures
        accounts.len() >= 3,
        holds_account(program_id, accounts[1]),
        signed_by_owner(accounts[0], account_in(program_id, accounts[1])),
{
}

/// What no instruction ever changes: the number of accounts, and of each
/// account its identity, its signer flag, its owning program and the length
/// of its buffer. An instruction changes nothing at all behind position 3,
/// and nothing in an account that belongs to another program.
pub proof fn lemma_frame(program_id: Pubkey, accounts: Seq<AccountView>, command: Command)
    requires
        command_spec(program_id, accounts, command).is_ok(),
    ensures
        ({
            let after = command_spec(program_id, accounts, command).unwrap();
            &&& after.len() == accounts.len()
            &&& forall|i: int|
                #![trigger after[i]]
                0 <= i < accounts.len() ==> {
                    &&& after[i].key == accounts[i].key
                    &&& after[i].is_signer == accounts[i].is_signer
                    &&& after[i].owner == accounts[i].owner
                    &&& after[i].data.len() == accounts[i].data.len()
                    &&& (i >= 4 || accounts[i].owner != program_id) ==> after[i] == accounts[i]
                }
        }),
{
}

/// What a successful instruction leaves in each account, as the program
/// then sees it.
proof fn lemma_after(program_id: Pubkey, accounts: Seq<AccountView>, command: Command)
    requires
        command_spec(program_id, accounts, command).is_ok(),
    ensures
        ({
            let after = command_spec(program_id, accounts, command).unwrap();
            match command {
                Command::NewToken(token) => {
                    &&& after.len() == accounts.len() >= 2
                    &&& loaded(program_id, accounts[0]) == Ok::<State, TokenError>(
                        State::Unallocated,
                    )
                    &&& holds_account(program_id, accounts[1])
                    &&& account_in(program_id, accounts[1]).delegate.is_none()
                    &&& loaded(program_id, after[0]) == Ok::<State, TokenError>(State::Token(token))
                    &&& loaded(program_id, after[1]) == Ok::<State, TokenError>(
                        State::Account(
                            with_amount(account_in(program_id, accounts[1]), token.supply),
                        ),
                    )
                    &&& forall|i: int| 2 <= i < accounts.len() ==> after[i] == accounts[i]
                },
                Command::NewTokenAccount => {
                    &&& after.len() == accounts.len() >= 3
                    &&& loaded(program_id, accounts[0]) == Ok::<State, TokenError>(
                        State::Unallocated,
                    )
                    &&& loaded(program_id, after[0]) == Ok::<State, TokenError>(
                        State::Account(fresh_account(accounts)),
                    )
                    &&& forall|i: int| 1 <= i < accounts.len() ==> after[i] == accounts[i]
                },
                Command::Transfer(amount) => {
                    let source = account_in(program_id, accounts[1]);
                    let dest = account_in(program_id, accounts[2]);
                    &&& after.len() == accounts.len() >= 3
                    &&& holds_account(program_id, accounts[1])
                    &&& holds_account(program_id, accounts[2])
                    &&& dest.delegate.is_none()
                    &&& amount <= source.amount
                    &&& loaded(program_id, after[1]) == Ok::<State, TokenError>(
                        State::Account(with_amount(source, (source.amount - amount) as u64)),
                    )
                    &&& loaded(program_id, after[2]) == Ok::<State, TokenError>(
                        State::Account(with_amount(dest, (dest.amount + amount) as u64)),
                    )
                    &&& after[0] == accounts[0]
                    &&& forall|i: int| 4 <= i < accounts.len() ==> after[i] == accounts[i]
                    &&& source.delegate.is_none() && accounts.len() > 3 ==> after[3] == accounts[3]
                    &&& source.delegate.is_some() ==> {
                        let payer = account_in(program_id, accounts[3]);
                        &&& accounts.len() >= 4
                        &&& holds_account(program_id, accounts[3])
                        &&& amount <= payer.amount
                        &&& loaded(program_id, after[3]) == Ok::<State, TokenError>(
                            State::Account(with_amount(payer, (payer.amount - amount) as u64)),
                        )
                    }
                },
                Command::Approve(amount) => {
                    &&& after.len() == accounts.len() >= 3
                    &&& holds_account(program_id, accounts[2])
                    &&& account_in(program_id, accounts[2]).delegate.is_some()
                    &&& loaded(program_id, after[2]) == Ok::<State, TokenError>(
                        State::Account(approved(account_in(program_id, accounts[2]), amount)),
                    )
                    &&& forall|i: int| 0 <= i < accounts.len() && i != 2 ==> after[i] == accounts[i]
                },
                Command::SetOwner => {
                    &&& after.len() == accounts.len() >= 3
                    &&& holds_account(program_id, accounts[1])
                    &&& loaded(program_id, after[1]) == Ok::<State, TokenError>(
                        State::Account(
                            with_owner(account_in(program_id, accounts[1]), accounts[2].key),
                        ),
                    )
                    &&& forall|i: int| 0 <= i < accounts.len() && i != 1 ==> after[i] == accounts[i]
                },
            }
        }),
{
    match command {
        Command::NewToken(token) => {
            lemma_newtoken_success_means(program_id, accounts, token);
            lemma_newtoken_then_read(
                program_id,
                accounts,
                token,
                account_in(program_id, accounts[1]),
            );
        },
        Command::NewTokenAccount => {
            lemma_newaccount_success_means(program_id, accounts);
            lemma_newaccount_then_read(program_id, accounts);
        },
        Command::Transfer(amount) => {
            lemma_transfer_success_means(program_id, accounts, amount);
            let source = account_in(program_id, accounts[1]);
            let dest = account_in(program_id, accounts[2]);
            if source.delegate.is_some() {
                lemma_delegate_transfer_moves_amount(
                    program_id,
                    accounts,
                    amount,
                    source,
                    dest,
                    account_in(program_id, accounts[3]),
                );
            } else {
                lemma_transfer_moves_amount(program_id, accounts, amount, source, dest);
            }
        },
        Command::Approve(amount) => {
            lemma_approve_success_means(program_id, accounts, amount);
            lemma_approve_sets_allowance(
                program_id,
                accounts,
                amount,
                account_in(program_id, accounts[1]),
                account_in(program_id, accounts[2]),
            );
        },
        Command::SetOwner => {
            lemma_setowner_success_means(program_id, accounts);
            lemma_setowner_hands_over(program_id, accounts, account_in(program_id, accounts[1]));
        },
    }
}

/// Records stay: an account in which the program sees a token before an
/// instruction holds the same token after it, and an account in which it
/// sees a token account holds a token account after it, of the same token,
/// and a delegate of the same source if it was a delegate. No instruction
/// takes a record away, and none rewrites a token.
pub proof fn lemma_records_persist(
    program_id: Pubkey,
    accounts: Seq<AccountView>,
    command: Command,
    i: int,
)
    requires
        command_spec(program_id, accounts, command).is_ok(),
        0 <= i < accounts.len(),
    ensures
        ({
            let after = command_spec(program_id, accounts, command).unwrap();
            match loaded(program_id, accounts[i]) {
                Ok(State::Token(token)) => loaded(program_id, after[i]) == Ok::<State, TokenError>(
                    State::Token(token),
                ),
                Ok(State::Account(account)) => loaded(program_id, after[i]) matches Ok(
                    State::Account(later),
                ) && later.token == account.token && match account.delegate {
                    Some(d) => later.delegate matches Some(l) && l.source == d.source,
                    None => later.delegate.is_none(),
                },
                _ => true,
            }
        }),
{
    lemma_after(program_id, accounts, command);
}

/// Only creation allocates: an unallocated buffer holds a record after an
/// instruction only if it stood at position 0 of a `NewToken`, which leaves a
/// token in it, or of a `NewTokenAccount`, which leaves an empty account.
/// Every other unallocated buffer is left as it was.
pub proof fn lemma_only_creation_allocates(
    program_id: Pubkey,
    accounts: Seq<AccountView>,
    command: Command,
    i: int,
)
    requires
        command_spec(program_id, accounts, command).is_ok(),
        0 <= i < accounts.len(),
        loaded(program_id, accounts[i]) == Ok::<State, TokenError>(State::Unallocated),
    ensures
        ({
            let after = command_spec(program_id, accounts, command).unwrap();
            match command {
                Command::NewToken(token) if i == 0 => loaded(program_id, after[i]) == Ok::<
                    State,
                    TokenError,
                >(State::Token(token)),
                Command::NewTokenAccount if i == 0 => loaded(program_id, after[i]) == Ok::<
                    State,
                    TokenError,
                >(State::Account(fresh_account(accounts))) && fresh_account(accounts).amount == 0,
                _ => after[i] == accounts[i],
            }
        }),
{
    lemma_after(program_id, accounts, command);
}

/// A delegate never receives: neither `NewToken` nor `Transfer` ever raises
/// the amount of an account that is a delegate, and no instruction but
/// `Approve` changes it in any other way than by spending from it.
pub proof fn lemma_delegates_never_receive(
    program_id: Pubkey,
    accounts: Seq<AccountView>,
    command: Command,
    i: int,
    account: TokenAccount,
)
    requires
        command_spec(program_id, accounts, command).is_ok(),
        !(command is Approve),
        0 <= i < accounts.len(),
        loaded(program_id, accounts[i]) == Ok::<State, TokenError>(State::Account(account)),
        account.delegate.is_some(),
    ensures
        ({
            let after = command_spec(program_id, accounts, command).unwrap();
            loaded(program_id, after[i]) matches Ok(State::Account(later)) && later.amount
                <= account.amount
        }),
{
    lemma_after(program_id, accounts, command);
}

/// The number of accounts that an instruction takes at the least.
pub open spec fn accounts_needed(command: Command) -> nat {
    match command {
        Command::NewToken(_) => 2,
        _ => 3,
    }
}

/// An instruction that comes with fewer accounts than it takes fails with
/// `NotEnoughAccountKeys`, whatever the accounts hold.
pub proof fn lemma_too_few_accounts(
    program_id: Pubkey,
    accounts: Seq<AccountView>,
    command: Command,
)
    requires
        accounts.len() < accounts_needed(command),
    ensures
        command_spec(program_id, accounts, command) == Err::<Seq<AccountView>, TokenError>(
            TokenError::NotEnoughAccountKeys,
        ),
{
}

/// An input that stands for no instruction fails with `InvalidUserdata`,
/// whatever the accounts are.
pub proof fn lemma_malformed_instruction(
    program_id: Pubkey,
    accounts: Seq<AccountView>,
    input: Seq<u8>,
)
    requires
        Command::spec_deserialize(input).is_err(),
    ensures
        process_spec(program_id, accounts, input) == Err::<Seq<AccountView>, TokenError>(
            TokenError::InvalidUserdata,
        ),
{
}

/// An instruction fails with `InvalidArgument`, `InvalidUserdata`,
/// `InsufficientFunds` or `NotEnoughAccountKeys` and with no other error, and
/// with `InsufficientFunds` only where it is a transfer.
pub proof fn lemma_errors_of_instructions(
    program_id: Pubkey,
    accounts: Seq<AccountView>,
    command: Command,
)
    requires
        command_spec(program_id, accounts, command).is_err(),
    ensures
        ({
            let e = command_spec(program_id, accounts, command)->Err_0;
            &&& e == TokenError::InvalidArgument || e == TokenError::InvalidUserdata || e
                == TokenError::InsufficientFunds || e == TokenError::NotEnoughAccountKeys
            &&& e == TokenError::InsufficientFunds ==> command is Transfer
        }),
{
}

} // verus!
