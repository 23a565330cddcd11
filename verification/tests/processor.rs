use solana_bpf_token::account::AccountInfo;
use solana_bpf_token::error::TokenError;
use solana_bpf_token::processor::{process_instruction, FAILURE, SUCCESS};
use solana_bpf_token::pubkey::Pubkey;
use solana_bpf_token::state::{
    Command, State, Token, TokenAccount, TokenAccountDelegate, TOKEN_ACCOUNT_BYTES, TOKEN_BYTES,
};

const STATE_BYTES: usize = 1 + TOKEN_ACCOUNT_BYTES;

fn key(byte: u8) -> Pubkey {
    Pubkey::new(&[byte; 32])
}

fn program() -> Pubkey {
    key(200)
}

/// An account of the program with an unallocated buffer of `len` bytes.
fn fresh(id: Pubkey, is_signer: bool, len: usize) -> AccountInfo {
    AccountInfo {
        key: id,
        is_signer,
        data: vec![0; len],
        owner: program(),
    }
}

/// An account of the program that holds `state`.
fn holding(id: Pubkey, is_signer: bool, state: State) -> AccountInfo {
    let mut account = fresh(id, is_signer, STATE_BYTES);
    state.serialize(&mut account.data).unwrap();
    account
}

/// An account that only lends its identity and its signature.
fn party(id: Pubkey, is_signer: bool) -> AccountInfo {
    AccountInfo {
        key: id,
        is_signer,
        data: Vec::new(),
        owner: Pubkey::default(),
    }
}

fn token_account(token: Pubkey, owner: Pubkey, amount: u64) -> TokenAccount {
    TokenAccount {
        token,
        owner,
        amount,
        delegate: None,
    }
}

fn delegate_of(token: Pubkey, owner: Pubkey, amount: u64, source: Pubkey) -> TokenAccount {
    TokenAccount {
        token,
        owner,
        amount,
        delegate: Some(TokenAccountDelegate {
            source,
            original_amount: amount,
        }),
    }
}

fn read(account: &AccountInfo) -> State {
    State::deserialize(&account.data).unwrap()
}

fn amount_in(account: &AccountInfo) -> u64 {
    match read(account) {
        State::Account(record) => record.amount,
        other => panic!("no token account: {:?}", other),
    }
}

fn encode(command: Command) -> Vec<u8> {
    let mut input = vec![0u8; 1 + TOKEN_BYTES];
    command.serialize(&mut input).unwrap();
    input
}

/// Runs `command` through every entry point and checks that they agree;
/// returns the outcome and the accounts after it.
fn run(
    accounts: &[AccountInfo],
    command: Command,
) -> (Result<(), TokenError>, Vec<AccountInfo>) {
    let input = encode(command);

    let mut direct = accounts.to_vec();
    let outcome = match command {
        Command::NewToken(token) => State::process_newtoken(&program(), &mut direct, token),
        Command::NewTokenAccount => State::process_newaccount(&program(), &mut direct),
        Command::Transfer(amount) => State::process_transfer(&program(), &mut direct, amount),
        Command::Approve(amount) => State::process_approve(&program(), &mut direct, amount),
        Command::SetOwner => State::process_setowner(&program(), &mut direct),
    };

    let mut dispatched = accounts.to_vec();
    assert_eq!(State::process(&program(), &mut dispatched, &input), outcome);
    assert_eq!(dispatched, direct);

    let mut through_host = accounts.to_vec();
    let status = process_instruction(&program(), &mut through_host, &input);
    assert_eq!(status, if outcome.is_ok() { SUCCESS } else { FAILURE });
    assert_eq!(through_host, direct);

    if outcome.is_err() {
        assert_eq!(direct, accounts.to_vec());
    }
    (outcome, direct)
}

fn refused(accounts: &[AccountInfo], command: Command, error: TokenError) {
    let (outcome, after) = run(accounts, command);
    assert_eq!(outcome, Err(error));
    assert_eq!(after, accounts.to_vec());
}

#[test]
pub fn state_bench_transfer() {
    println!("integration test");

    let owner = party(key(1), false);
    let mut mint = fresh(key(2), true, STATE_BYTES);
    let mut payee = fresh(key(3), true, STATE_BYTES);
    let mut token = fresh(key(4), false, STATE_BYTES);

    let (outcome, after) = run(
        &[mint.clone(), owner.clone(), token.clone()],
        Command::NewTokenAccount,
    );
    assert_eq!(outcome, Ok(()));
    mint.data = after[0].data.clone();

    let (outcome, after) = run(
        &[payee.clone(), owner.clone(), token.clone()],
        Command::NewTokenAccount,
    );
    assert_eq!(outcome, Ok(()));
    payee.data = after[0].data.clone();

    token.is_signer = true;
    mint.is_signer = false;
    let (outcome, after) = run(
        &[token.clone(), mint.clone()],
        Command::NewToken(Token {
            supply: 1000,
            decimals: 2,
        }),
    );
    assert_eq!(outcome, Ok(()));
    token.data = after[0].data.clone();
    mint.data = after[1].data.clone();

    let mut signing_owner = owner.clone();
    signing_owner.is_signer = true;
    payee.is_signer = false;
    let (outcome, after) = run(
        &[signing_owner, mint.clone(), payee.clone()],
        Command::Transfer(100),
    );
    assert_eq!(outcome, Ok(()));
    assert_eq!(amount_in(&after[1]), 900);
    assert_eq!(amount_in(&after[2]), 100);
    assert_eq!(
        read(&token),
        State::Token(Token {
            supply: 1000,
            decimals: 2
        })
    );
}

#[test]
fn bench_bench_transfer() {
    let program_id = key(77);
    let mut instruction_data = vec![0u8; 1 + TOKEN_BYTES];
    let mint_key = key(11);
    let mut mint_account = vec![0u8; STATE_BYTES];
    let owner_key = key(12);
    let owner_account: Vec<u8> = Vec::new();
    let token_key = key(13);
    let mut token_account = vec![0u8; STATE_BYTES];

    // Create mint account
    let instruction = Command::NewTokenAccount;
    instruction.serialize(&mut instruction_data).unwrap();
    let mut parameter_accounts = vec![
        AccountInfo {
            key: mint_key,
            is_signer: true,
            data: mint_account.clone(),
            owner: program_id,
        },
        AccountInfo {
            key: owner_key,
            is_signer: false,
            data: owner_account.clone(),
            owner: Pubkey::default(),
        },
        AccountInfo {
            key: token_key,
            is_signer: false,
            data: token_account.clone(),
            owner: program_id,
        },
    ];
    let result = process_instruction(&program_id, &mut parameter_accounts[..], &instruction_data);
    assert!(result == 0);
    mint_account = parameter_accounts[0].data.clone();

    // Create new account
    let instruction = Command::NewTokenAccount;
    instruction.serialize(&mut instruction_data).unwrap();
    let payee_key = key(14);
    let mut payee_account = vec![0u8; STATE_BYTES];
    let mut parameter_accounts = vec![
        AccountInfo {
            key: payee_key,
            is_signer: true,
            data: payee_account.clone(),
            owner: program_id,
        },
        AccountInfo {
            key: owner_key,
            is_signer: false,
            data: owner_account.clone(),
            owner: Pubkey::default(),
        },
        AccountInfo {
            key: token_key,
            is_signer: false,
            data: token_account.clone(),
            owner: program_id,
        },
    ];
    let result = process_instruction(&program_id, &mut parameter_accounts[..], &instruction_data);
    assert!(result == 0);
    payee_account = parameter_accounts[0].data.clone();

    // Create new token
    let instruction = Command::NewToken(Token {
        supply: 1000,
        decimals: 2,
    });
    instruction.serialize(&mut instruction_data).unwrap();
    let mut parameter_accounts = vec![
        AccountInfo {
            key: token_key,
            is_signer: true,
            data: token_account.clone(),
            owner: program_id,
        },
        AccountInfo {
            key: mint_key,
            is_signer: false,
            data: mint_account.clone(),
            owner: program_id,
        },
    ];
    let result = process_instruction(&program_id, &mut parameter_accounts[..], &instruction_data);
    assert!(result == 0);
    token_account = parameter_accounts[0].data.clone();
    mint_account = parameter_accounts[1].data.clone();

    // Transfer
    let instruction = Command::Transfer(100);
    instruction.serialize(&mut instruction_data).unwrap();
    let mut parameter_accounts = vec![
        AccountInfo {
            key: owner_key,
            is_signer: true,
            data: owner_account.clone(),
            owner: Pubkey::default(),
        },
        AccountInfo {
            key: mint_key,
            is_signer: false,
            data: mint_account.clone(),
            owner: program_id,
        },
        AccountInfo {
            key: payee_key,
            is_signer: false,
            data: payee_account.clone(),
            owner: program_id,
        },
    ];
    let result = process_instruction(&program_id, &mut parameter_accounts[..], &instruction_data);
    assert!(result == 0);

    assert_eq!(amount_in(&parameter_accounts[1]), 900);
    assert_eq!(amount_in(&parameter_accounts[2]), 100);
    assert_eq!(
        State::deserialize(&token_account),
        Ok(State::Token(Token {
            supply: 1000,
            decimals: 2
        }))
    );
}

#[test]
fn bench() {
    let program_id = Pubkey::default();
    let mut instruction_data = vec![0u8; 1 + TOKEN_BYTES];
    let mint_key = Pubkey::default();
    let mut mint_account = vec![0u8; STATE_BYTES];
    let owner_key = Pubkey::default();
    let owner_account: Vec<u8> = Vec::new();
    let token_key = Pubkey::default();
    let mut token_account = vec![0u8; STATE_BYTES];

    // Create mint account
    let instruction = Command::NewTokenAccount;
    instruction.serialize(&mut instruction_data).unwrap();
    let mut parameter_accounts = vec![
        AccountInfo {
            key: mint_key,
            is_signer: true,
            data: mint_account.clone(),
            owner: program_id,
        },
        AccountInfo {
            key: owner_key,
            is_signer: false,
            data: owner_account.clone(),
            owner: Pubkey::default(),
        },
        AccountInfo {
            key: token_key,
            is_signer: false,
            data: token_account.clone(),
            owner: program_id,
        },
    ];
    let result = process_instruction(&program_id, &mut parameter_accounts[..], &instruction_data);
    assert!(result == 0);
    mint_account = parameter_accounts[0].data.clone();

    // Create new account
    let instruction = Command::NewTokenAccount;
    instruction.serialize(&mut instruction_data).unwrap();
    let payee_key = Pubkey::default();
    let mut payee_account = vec![0u8; STATE_BYTES];
    let mut parameter_accounts = vec![
        AccountInfo {
            key: payee_key,
            is_signer: true,
            data: payee_account.clone(),
            owner: program_id,
        },
        AccountInfo {
            key: owner_key,
            is_signer: false,
            data: owner_account.clone(),
            owner: Pubkey::default(),
        },
        AccountInfo {
            key: token_key,
            is_signer: false,
            data: token_account.clone(),
            owner: program_id,
        },
    ];
    let result = process_instruction(&program_id, &mut parameter_accounts[..], &instruction_data);
    assert!(result == 0);
    payee_account = parameter_accounts[0].data.clone();

    // Create new token
    let instruction = Command::NewToken(Token {
        supply: 1000,
        decimals: 2,
    });
    instruction.serialize(&mut instruction_data).unwrap();
    let mut parameter_accounts = vec![
        AccountInfo {
            key: token_key,
            is_signer: true,
            data: token_account.clone(),
            owner: program_id,
        },
        AccountInfo {
            key: mint_key,
            is_signer: false,
            data: mint_account.clone(),
            owner: program_id,
        },
    ];
    let result = process_instruction(&program_id, &mut parameter_accounts[..], &instruction_data);
    assert!(result == 0);
    mint_account = parameter_accounts[1].data.clone();

    // Transfer
    let instruction = Command::Transfer(100);
    instruction.serialize(&mut instruction_data).unwrap();
    let mut parameter_accounts = vec![
        AccountInfo {
            key: owner_key,
            is_signer: true,
            data: owner_account.clone(),
            owner: Pubkey::default(),
        },
        AccountInfo {
            key: mint_key,
            is_signer: false,
            data: mint_account.clone(),
            owner: program_id,
        },
        AccountInfo {
            key: payee_key,
            is_signer: false,
            data: payee_account.clone(),
            owner: program_id,
        },
    ];
    let result = process_instruction(&program_id, &mut parameter_accounts[..], &instruction_data);
    assert!(result == 0);

    assert_eq!(amount_in(&parameter_accounts[1]), 900);
    assert_eq!(amount_in(&parameter_accounts[2]), 100);
}

#[test]
fn mint_then_read() {
    let descriptor = fresh(key(5), true, STATE_BYTES);
    let target = holding(
        key(6),
        false,
        State::Account(token_account(key(5), key(7), 0)),
    );
    let supply = Token {
        supply: 1000,
        decimals: 2,
    };
    let (outcome, after) = run(&[descriptor, target], Command::NewToken(supply));
    assert_eq!(outcome, Ok(()));
    assert_eq!(read(&after[0]), State::Token(supply));
    assert_eq!(
        read(&after[1]),
        State::Account(token_account(key(5), key(7), 1000))
    );
    assert_eq!(amount_in(&after[1]), 1000);
}

#[test]
fn mint_into_the_smallest_buffer() {
    let descriptor = fresh(key(5), true, 1 + TOKEN_BYTES);
    let target = holding(
        key(6),
        false,
        State::Account(token_account(key(5), key(7), 3)),
    );
    let supply = Token {
        supply: u64::MAX,
        decimals: 0,
    };
    let (outcome, after) = run(&[descriptor, target], Command::NewToken(supply));
    assert_eq!(outcome, Ok(()));
    assert_eq!(read(&after[0]), State::Token(supply));
    assert_eq!(amount_in(&after[1]), u64::MAX);
}

#[test]
fn mint_refusals() {
    let descriptor = fresh(key(5), true, STATE_BYTES);
    let target = holding(
        key(6),
        false,
        State::Account(token_account(key(5), key(7), 0)),
    );
    let supply = Command::NewToken(Token {
        supply: 1000,
        decimals: 2,
    });

    refused(&[], supply, TokenError::NotEnoughAccountKeys);
    refused(
        &[descriptor.clone()],
        supply,
        TokenError::NotEnoughAccountKeys,
    );

    // The token has not signed.
    let mut unsigned = descriptor.clone();
    unsigned.is_signer = false;
    refused(
        &[unsigned, target.clone()],
        supply,
        TokenError::InvalidArgument,
    );

    // The target holds another token.
    let stranger = holding(
        key(6),
        false,
        State::Account(token_account(key(9), key(7), 0)),
    );
    refused(
        &[descriptor.clone(), stranger],
        supply,
        TokenError::InvalidArgument,
    );

    // The target is a delegate.
    let delegate = holding(
        key(6),
        false,
        State::Account(delegate_of(key(5), key(7), 0, key(8))),
    );
    refused(
        &[descriptor.clone(), delegate],
        supply,
        TokenError::InvalidArgument,
    );

    // The target is no token account.
    let unallocated = fresh(key(6), false, STATE_BYTES);
    refused(
        &[descriptor.clone(), unallocated],
        supply,
        TokenError::InvalidArgument,
    );
    let a_token = holding(key(6), false, State::Token(Token::default()));
    refused(
        &[descriptor.clone(), a_token],
        supply,
        TokenError::InvalidArgument,
    );

    // The target cannot be decoded.
    let mut garbled = target.clone();
    garbled.data[0] = 9;
    refused(
        &[descriptor.clone(), garbled],
        supply,
        TokenError::InvalidUserdata,
    );

    // The token exists already.
    let existing = holding(key(5), true, State::Token(Token::default()));
    refused(
        &[existing, target.clone()],
        supply,
        TokenError::InvalidArgument,
    );

    // The token's buffer is empty, or too short for a token.
    let empty = fresh(key(5), true, 0);
    refused(
        &[empty, target.clone()],
        supply,
        TokenError::InvalidUserdata,
    );
    let short = fresh(key(5), true, TOKEN_BYTES);
    refused(
        &[short, target.clone()],
        supply,
        TokenError::InvalidUserdata,
    );
}

#[test]
fn failed_mint_leaves_the_target_untouched() {
    // The target is in order, the token's buffer is not: nothing is written.
    let target = holding(
        key(6),
        false,
        State::Account(token_account(key(5), key(7), 42)),
    );
    let existing = holding(key(5), true, State::Token(Token::default()));
    let supply = Command::NewToken(Token {
        supply: 1000,
        decimals: 2,
    });
    let (outcome, after) = run(&[existing, target.clone()], supply);
    assert_eq!(outcome, Err(TokenError::InvalidArgument));
    assert_eq!(after[1].data, target.data);
    assert_eq!(amount_in(&after[1]), 42);
}

#[test]
fn new_account_is_empty() {
    let accounts = [
        fresh(key(1), false, STATE_BYTES),
        party(key(2), false),
        party(key(3), false),
    ];
    let (outcome, after) = run(&accounts, Command::NewTokenAccount);
    assert_eq!(outcome, Ok(()));
    assert_eq!(
        read(&after[0]),
        State::Account(token_account(key(3), key(2), 0))
    );
    assert_eq!(after[1], accounts[1]);
    assert_eq!(after[2], accounts[2]);
}

#[test]
fn new_delegate_has_no_allowance() {
    let accounts = [
        fresh(key(1), false, STATE_BYTES + 10),
        party(key(2), false),
        party(key(3), false),
        party(key(4), false),
        party(key(5), false),
    ];
    let (outcome, after) = run(&accounts, Command::NewTokenAccount);
    assert_eq!(outcome, Ok(()));
    assert_eq!(
        read(&after[0]),
        State::Account(TokenAccount {
            token: key(3),
            owner: key(2),
            amount: 0,
            delegate: Some(TokenAccountDelegate {
                source: key(4),
                original_amount: 0
            }),
        })
    );
    assert_eq!(&after[0].data[STATE_BYTES..], &[0; 10]);
}

#[test]
fn new_account_refusals() {
    let new = fresh(key(1), false, STATE_BYTES);
    let owner = party(key(2), false);
    let token = party(key(3), false);
    let command = Command::NewTokenAccount;

    refused(&[], command, TokenError::NotEnoughAccountKeys);
    refused(
        &[new.clone(), owner.clone()],
        command,
        TokenError::NotEnoughAccountKeys,
    );

    let taken = holding(
        key(1),
        false,
        State::Account(token_account(key(3), key(2), 5)),
    );
    refused(
        &[taken, owner.clone(), token.clone()],
        command,
        TokenError::InvalidArgument,
    );
    let a_token = holding(key(1), false, State::Token(Token::default()));
    refused(
        &[a_token, owner.clone(), token.clone()],
        command,
        TokenError::InvalidArgument,
    );

    let empty = fresh(key(1), false, 0);
    refused(
        &[empty, owner.clone(), token.clone()],
        command,
        TokenError::InvalidUserdata,
    );
    let short = fresh(key(1), false, TOKEN_ACCOUNT_BYTES);
    refused(
        &[short, owner.clone(), token.clone()],
        command,
        TokenError::InvalidUserdata,
    );

    // A buffer of another program is never written, whatever it holds.
    let mut foreign = new.clone();
    foreign.owner = key(99);
    refused(
        &[foreign, owner.clone(), token.clone()],
        command,
        TokenError::InvalidArgument,
    );
}

fn transfer_setup(source_amount: u64, dest_amount: u64) -> Vec<AccountInfo> {
    vec![
        party(key(1), true),
        holding(
            key(2),
            false,
            State::Account(token_account(key(9), key(1), source_amount)),
        ),
        holding(
            key(3),
            false,
            State::Account(token_account(key(9), key(8), dest_amount)),
        ),
    ]
}

#[test]
fn transfer_happy_path() {
    let accounts = transfer_setup(100, 0);
    let (outcome, after) = run(&accounts, Command::Transfer(40));
    assert_eq!(outcome, Ok(()));
    assert_eq!(amount_in(&after[1]), 60);
    assert_eq!(amount_in(&after[2]), 40);
    assert_eq!(
        read(&after[1]),
        State::Account(token_account(key(9), key(1), 60))
    );
    assert_eq!(
        read(&after[2]),
        State::Account(token_account(key(9), key(8), 40))
    );
    assert_eq!(after[0], accounts[0]);
}

#[test]
fn transfer_of_everything_and_of_nothing() {
    let (outcome, after) = run(&transfer_setup(100, 7), Command::Transfer(100));
    assert_eq!(outcome, Ok(()));
    assert_eq!(amount_in(&after[1]), 0);
    assert_eq!(amount_in(&after[2]), 107);

    let (outcome, after) = run(&transfer_setup(100, 7), Command::Transfer(0));
    assert_eq!(outcome, Ok(()));
    assert_eq!(amount_in(&after[1]), 100);
    assert_eq!(amount_in(&after[2]), 7);
}

#[test]
fn transfer_insufficient_funds() {
    let accounts = transfer_setup(10, 0);
    let (outcome, after) = run(&accounts, Command::Transfer(40));
    assert_eq!(outcome, Err(TokenError::InsufficientFunds));
    assert_eq!(after[1].data, accounts[1].data);
    assert_eq!(after[2].data, accounts[2].data);
    assert_eq!(after, accounts);

    refused(
        &transfer_setup(10, 0),
        Command::Transfer(11),
        TokenError::InsufficientFunds,
    );
}

#[test]
fn transfer_that_the_destination_cannot_hold() {
    refused(
        &transfer_setup(10, u64::MAX - 5),
        Command::Transfer(6),
        TokenError::InvalidArgument,
    );
    let (outcome, after) = run(&transfer_setup(10, u64::MAX - 5), Command::Transfer(5));
    assert_eq!(outcome, Ok(()));
    assert_eq!(amount_in(&after[1]), 5);
    assert_eq!(amount_in(&after[2]), u64::MAX);
}

#[test]
fn transfer_refusals() {
    let accounts = transfer_setup(100, 0);
    let command = Command::Transfer(40);

    refused(&accounts[..2], command, TokenError::NotEnoughAccountKeys);
    refused(&[], command, TokenError::NotEnoughAccountKeys);

    // The owner has not signed.
    let mut unsigned = accounts.clone();
    unsigned[0].is_signer = false;
    refused(&unsigned, command, TokenError::InvalidArgument);

    // Someone else has signed.
    let mut other = accounts.clone();
    other[0] = party(key(8), true);
    refused(&other, command, TokenError::InvalidArgument);

    // The two accounts hold different tokens.
    let mut mixed = accounts.clone();
    mixed[2] = holding(
        key(3),
        false,
        State::Account(token_account(key(10), key(8), 0)),
    );
    refused(&mixed, command, TokenError::InvalidArgument);

    // The destination is a delegate.
    let mut to_delegate = accounts.clone();
    to_delegate[2] = holding(
        key(3),
        false,
        State::Account(delegate_of(key(9), key(8), 0, key(2))),
    );
    refused(&to_delegate, command, TokenError::InvalidArgument);

    // One of the two is no token account.
    let mut no_source = accounts.clone();
    no_source[1] = fresh(key(2), false, STATE_BYTES);
    refused(&no_source, command, TokenError::InvalidArgument);
    let mut no_dest = accounts.clone();
    no_dest[2] = holding(key(3), false, State::Token(Token::default()));
    refused(&no_dest, command, TokenError::InvalidArgument);

    // One of the two cannot be decoded.
    let mut garbled = accounts.clone();
    garbled[1].data[0] = 3;
    refused(&garbled, command, TokenError::InvalidUserdata);
    let mut cut = accounts.clone();
    cut[2].data.truncate(50);
    refused(&cut, command, TokenError::InvalidUserdata);

    // One of the two belongs to another program.
    let mut foreign = accounts.clone();
    foreign[2].owner = key(99);
    refused(&foreign, command, TokenError::InvalidArgument);
}

fn delegate_setup(allowance: u64, balance: u64) -> Vec<AccountInfo> {
    vec![
        party(key(1), true),
        holding(
            key(2),
            false,
            State::Account(delegate_of(key(9), key(1), allowance, key(4))),
        ),
        holding(
            key(3),
            false,
            State::Account(token_account(key(9), key(8), 5)),
        ),
        holding(
            key(4),
            false,
            State::Account(token_account(key(9), key(7), balance)),
        ),
    ]
}

#[test]
fn delegate_spend() {
    let accounts = delegate_setup(50, 200);
    let (outcome, after) = run(&accounts, Command::Transfer(30));
    assert_eq!(outcome, Ok(()));
    // The allowance and the real balance both go down, the destination up.
    assert_eq!(amount_in(&after[1]), 20);
    assert_eq!(amount_in(&after[3]), 170);
    assert_eq!(amount_in(&after[2]), 35);
    // What was authorised is still on record.
    assert_eq!(
        read(&after[1]),
        State::Account(TokenAccount {
            token: key(9),
            owner: key(1),
            amount: 20,
            delegate: Some(TokenAccountDelegate {
                source: key(4),
                original_amount: 50
            }),
        })
    );
}

#[test]
fn delegate_spend_two_tiers() {
    // First tier: the allowance. The real balance would cover the amount.
    refused(
        &delegate_setup(50, 200),
        Command::Transfer(51),
        TokenError::InsufficientFunds,
    );
    // Second tier: the real balance. The allowance would cover the amount.
    refused(
        &delegate_setup(50, 20),
        Command::Transfer(21),
        TokenError::InsufficientFunds,
    );
    // Both tiers at their limit.
    let (outcome, after) = run(&delegate_setup(50, 50), Command::Transfer(50));
    assert_eq!(outcome, Ok(()));
    assert_eq!(amount_in(&after[1]), 0);
    assert_eq!(amount_in(&after[3]), 0);
    assert_eq!(amount_in(&after[2]), 55);
}

#[test]
fn spending_from_the_real_account_ignores_the_allowance() {
    // The owner of the real account moves more than any delegate may.
    let setup = delegate_setup(50, 200);
    let accounts = vec![
        party(key(7), true),
        setup[3].clone(),
        setup[2].clone(),
        setup[1].clone(),
    ];
    let (outcome, after) = run(&accounts, Command::Transfer(120));
    assert_eq!(outcome, Ok(()));
    assert_eq!(amount_in(&after[1]), 80);
    assert_eq!(amount_in(&after[2]), 125);
    assert_eq!(after[3], accounts[3]);

    // And fails on the real balance alone.
    refused(&accounts, Command::Transfer(201), TokenError::InsufficientFunds);
}

#[test]
fn delegate_spend_refusals() {
    let accounts = delegate_setup(50, 200);
    let command = Command::Transfer(30);

    // The account to spend from is missing.
    refused(&accounts[..3], command, TokenError::NotEnoughAccountKeys);

    // It is not the account that the delegate was created for.
    let mut wrong_source = accounts.clone();
    wrong_source[3].key = key(5);
    refused(&wrong_source, command, TokenError::InvalidArgument);

    // It holds another token.
    let mut wrong_token = accounts.clone();
    wrong_token[3] = holding(
        key(4),
        false,
        State::Account(token_account(key(10), key(7), 200)),
    );
    refused(&wrong_token, command, TokenError::InvalidArgument);

    // It is no token account.
    let mut no_account = accounts.clone();
    no_account[3] = fresh(key(4), false, STATE_BYTES);
    refused(&no_account, command, TokenError::InvalidArgument);

    // It cannot be decoded.
    let mut garbled = accounts.clone();
    garbled[3].data[0] = 200;
    refused(&garbled, command, TokenError::InvalidUserdata);

    // It belongs to another program.
    let mut foreign = accounts.clone();
    foreign[3].owner = key(99);
    refused(&foreign, command, TokenError::InvalidArgument);

    // The owner of the real account cannot sign for the delegate.
    let mut wrong_signer = accounts.clone();
    wrong_signer[0] = party(key(7), true);
    refused(&wrong_signer, command, TokenError::InvalidArgument);

    // The destination cannot hold the amount.
    let mut full = accounts.clone();
    full[2] = holding(
        key(3),
        false,
        State::Account(token_account(key(9), key(8), u64::MAX)),
    );
    refused(&full, command, TokenError::InvalidArgument);
}

fn approve_setup(allowance: u64) -> Vec<AccountInfo> {
    vec![
        party(key(7), true),
        holding(
            key(4),
            false,
            State::Account(token_account(key(9), key(7), 200)),
        ),
        holding(
            key(2),
            false,
            State::Account(delegate_of(key(9), key(1), allowance, key(4))),
        ),
    ]
}

#[test]
fn approve_sets_the_allowance() {
    let accounts = approve_setup(0);
    let (outcome, after) = run(&accounts, Command::Approve(75));
    assert_eq!(outcome, Ok(()));
    assert_eq!(
        read(&after[2]),
        State::Account(delegate_of(key(9), key(1), 75, key(4)))
    );
    assert_eq!(after[1], accounts[1]);
}

#[test]
fn approve_replaces_the_allowance() {
    let (outcome, after) = run(&approve_setup(500), Command::Approve(75));
    assert_eq!(outcome, Ok(()));
    assert_eq!(amount_in(&after[2]), 75);
    let (outcome, after) = run(&after, Command::Approve(0));
    assert_eq!(outcome, Ok(()));
    assert_eq!(
        read(&after[2]),
        State::Account(delegate_of(key(9), key(1), 0, key(4)))
    );
}

#[test]
fn approve_then_spend() {
    let (outcome, approved) = run(&approve_setup(0), Command::Approve(75));
    assert_eq!(outcome, Ok(()));
    let accounts = vec![
        party(key(1), true),
        approved[2].clone(),
        holding(
            key(3),
            false,
            State::Account(token_account(key(9), key(8), 0)),
        ),
        approved[1].clone(),
    ];
    let (outcome, after) = run(&accounts, Command::Transfer(70));
    assert_eq!(outcome, Ok(()));
    assert_eq!(amount_in(&after[1]), 5);
    assert_eq!(amount_in(&after[2]), 70);
    assert_eq!(amount_in(&after[3]), 130);
    refused(&after, Command::Transfer(6), TokenError::InsufficientFunds);
}

#[test]
fn approve_refusals() {
    let accounts = approve_setup(0);
    let command = Command::Approve(75);

    refused(&accounts[..2], command, TokenError::NotEnoughAccountKeys);

    let mut unsigned = accounts.clone();
    unsigned[0].is_signer = false;
    refused(&unsigned, command, TokenError::InvalidArgument);

    let mut other = accounts.clone();
    other[0] = party(key(1), true);
    refused(&other, command, TokenError::InvalidArgument);

    // The delegate holds another token.
    let mut mixed = accounts.clone();
    mixed[2] = holding(
        key(2),
        false,
        State::Account(delegate_of(key(10), key(1), 0, key(4))),
    );
    refused(&mixed, command, TokenError::InvalidArgument);

    // The source is itself a delegate.
    let mut chained = accounts.clone();
    chained[1] = holding(
        key(4),
        false,
        State::Account(delegate_of(key(9), key(7), 200, key(5))),
    );
    refused(&chained, command, TokenError::InvalidArgument);

    // The account at position 2 is no delegate.
    let mut plain = accounts.clone();
    plain[2] = holding(
        key(2),
        false,
        State::Account(token_account(key(9), key(1), 0)),
    );
    refused(&plain, command, TokenError::InvalidArgument);

    // It is the delegate of another account.
    let mut elsewhere = accounts.clone();
    elsewhere[2] = holding(
        key(2),
        false,
        State::Account(delegate_of(key(9), key(1), 0, key(5))),
    );
    refused(&elsewhere, command, TokenError::InvalidArgument);

    // One of the two is no token account, or cannot be decoded.
    let mut no_source = accounts.clone();
    no_source[1] = fresh(key(4), false, STATE_BYTES);
    refused(&no_source, command, TokenError::InvalidArgument);
    let mut garbled = accounts.clone();
    garbled[2].data[0] = 77;
    refused(&garbled, command, TokenError::InvalidUserdata);
    let mut bad_tag = accounts.clone();
    bad_tag[2].data[73] = 2;
    refused(&bad_tag, command, TokenError::InvalidUserdata);
}

fn setowner_setup() -> Vec<AccountInfo> {
    vec![
        party(key(1), true),
        holding(
            key(2),
            false,
            State::Account(delegate_of(key(9), key(1), 33, key(4))),
        ),
        party(key(6), false),
    ]
}

#[test]
fn setowner_hands_over() {
    let accounts = setowner_setup();
    let (outcome, after) = run(&accounts, Command::SetOwner);
    assert_eq!(outcome, Ok(()));
    assert_eq!(
        read(&after[1]),
        State::Account(delegate_of(key(9), key(6), 33, key(4)))
    );
    // The old owner can no longer hand it on.
    refused(&after, Command::SetOwner, TokenError::InvalidArgument);
}

#[test]
fn setowner_unauthorized() {
    let accounts = setowner_setup();

    let mut other = accounts.clone();
    other[0] = party(key(6), true);
    let (outcome, after) = run(&other, Command::SetOwner);
    assert_eq!(outcome, Err(TokenError::InvalidArgument));
    assert_eq!(after[1].data, accounts[1].data);

    let mut unsigned = accounts.clone();
    unsigned[0].is_signer = false;
    refused(&unsigned, Command::SetOwner, TokenError::InvalidArgument);
}

#[test]
fn setowner_refusals() {
    let accounts = setowner_setup();
    refused(
        &accounts[..2],
        Command::SetOwner,
        TokenError::NotEnoughAccountKeys,
    );
    let mut no_account = accounts.clone();
    no_account[1] = holding(key(2), false, State::Token(Token::default()));
    refused(&no_account, Command::SetOwner, TokenError::InvalidArgument);
    let mut empty = accounts.clone();
    empty[1].data.clear();
    refused(&empty, Command::SetOwner, TokenError::InvalidUserdata);
    let mut foreign = accounts.clone();
    foreign[1].owner = key(99);
    refused(&foreign, Command::SetOwner, TokenError::InvalidArgument);
}

#[test]
fn malformed_instruction_is_refused_before_any_account_is_read() {
    let accounts = transfer_setup(100, 0);
    for input in [
        vec![],
        vec![5u8],
        vec![2u8, 1, 2],
        vec![0u8, 1, 2, 3],
        vec![3u8; 8],
    ] {
        let mut touched = accounts.clone();
        assert_eq!(
            State::process(&program(), &mut touched, &input),
            Err(TokenError::InvalidUserdata)
        );
        assert_eq!(touched, accounts);
        assert_eq!(process_instruction(&program(), &mut touched, &input), FAILURE);
        assert_eq!(touched, accounts);
        let mut none: Vec<AccountInfo> = Vec::new();
        assert_eq!(
            State::process(&program(), &mut none, &input),
            Err(TokenError::InvalidUserdata)
        );
    }
}

#[test]
fn accounts_are_taken_by_position() {
    // Source and destination swapped: the signer no longer owns position 1.
    let accounts = transfer_setup(100, 0);
    let swapped = vec![
        accounts[0].clone(),
        accounts[2].clone(),
        accounts[1].clone(),
    ];
    refused(&swapped, Command::Transfer(40), TokenError::InvalidArgument);
}

#[test]
fn accounts_behind_the_rule_are_left_alone() {
    let mut accounts = transfer_setup(100, 0);
    accounts.push(holding(
        key(50),
        false,
        State::Account(token_account(key(9), key(1), 1)),
    ));
    accounts.push(party(key(51), true));
    let (outcome, after) = run(&accounts, Command::Transfer(40));
    assert_eq!(outcome, Ok(()));
    assert_eq!(after[3], accounts[3]);
    assert_eq!(after[4], accounts[4]);
    for (before, later) in accounts.iter().zip(after.iter()) {
        assert_eq!(before.key, later.key);
        assert_eq!(before.is_signer, later.is_signer);
        assert_eq!(before.owner, later.owner);
        assert_eq!(before.data.len(), later.data.len());
    }
}

#[test]
fn load_and_store() {
    let mut account = fresh(key(1), false, STATE_BYTES + 3);
    assert_eq!(State::load(&program(), &account), Ok(State::Unallocated));
    let record = State::Account(token_account(key(9), key(2), 17));
    assert_eq!(record.store(&mut account), Ok(()));
    assert_eq!(State::load(&program(), &account), Ok(record));
    assert_eq!(State::load(&key(99), &account), Ok(State::Invalid));

    assert_eq!(
        State::Invalid.store(&mut account),
        Err(TokenError::UnserializableState)
    );
    assert_eq!(State::load(&program(), &account), Ok(record));

    let mut short = fresh(key(1), false, 4);
    assert_eq!(record.store(&mut short), Err(TokenError::InvalidUserdata));
    assert_eq!(short.data, vec![0; 4]);
    let mut garbled = fresh(key(1), false, 4);
    garbled.data[0] = 8;
    assert_eq!(
        State::load(&program(), &garbled),
        Err(TokenError::InvalidUserdata)
    );
    assert_eq!(State::load(&key(99), &garbled), Ok(State::Invalid));
}

#[test]
fn records_stay_and_unallocated_buffers_stay_empty() {
    // A token, an unallocated buffer and a foreign buffer ride along with a
    // transfer at positions that the rule does not use.
    let mut accounts = transfer_setup(100, 0);
    let token = Token {
        supply: 1000,
        decimals: 2,
    };
    accounts.push(holding(key(9), false, State::Token(token)));
    accounts.push(fresh(key(60), false, STATE_BYTES));
    let mut foreign = holding(
        key(61),
        false,
        State::Account(token_account(key(9), key(1), 5)),
    );
    foreign.owner = key(99);
    accounts.push(foreign);

    let (outcome, after) = run(&accounts, Command::Transfer(40));
    assert_eq!(outcome, Ok(()));
    assert_eq!(read(&after[3]), State::Token(token));
    assert_eq!(read(&after[4]), State::Unallocated);
    assert_eq!(after[5], accounts[5]);
    assert_eq!(State::load(&program(), &after[5]), Ok(State::Invalid));

    // The accounts of the transfer are token accounts of the same token still.
    for position in [1, 2] {
        match (read(&accounts[position]), read(&after[position])) {
            (State::Account(before), State::Account(later)) => {
                assert_eq!(before.token, later.token);
                assert_eq!(before.owner, later.owner);
                assert_eq!(before.delegate, later.delegate);
            }
            other => panic!("a record went away: {:?}", other),
        }
    }
}

#[test]
fn a_token_is_never_rewritten() {
    // A second mint over an existing token is refused.
    let descriptor = fresh(key(5), true, STATE_BYTES);
    let target = holding(
        key(6),
        false,
        State::Account(token_account(key(5), key(7), 0)),
    );
    let first = Token {
        supply: 1000,
        decimals: 2,
    };
    let (outcome, after) = run(&[descriptor, target], Command::NewToken(first));
    assert_eq!(outcome, Ok(()));
    let second = Token {
        supply: 5,
        decimals: 0,
    };
    let (outcome, again) = run(&after, Command::NewToken(second));
    assert_eq!(outcome, Err(TokenError::InvalidArgument));
    assert_eq!(read(&again[0]), State::Token(first));
    assert_eq!(amount_in(&again[1]), 1000);

    // Nor can an account be created over it.
    let over = vec![after[0].clone(), party(key(2), false), party(key(3), false)];
    refused(&over, Command::NewTokenAccount, TokenError::InvalidArgument);
}
