//! The records that the token program keeps in account buffers, the
//! instructions it accepts, and the byte form of both.

use vstd::prelude::*;
use crate::bytes::{
    lemma_overwrite_adjacent, lemma_u64_from_le_bound, lemma_u64_le_bytes_round_trip,
    lemma_u64_le_round_trip, overwrite, read_u64, u64_from_le, u64_to_le, write_u64,
};
use crate::error::TokenError;
use crate::pubkey::Pubkey;
use crate::simple_serde::{deserialized, lemma_serialize_then_deserialize, SimpleSerde};
use vstd::slice::slice_subrange;
use vstd::std_specs::iter::IteratorSpec;

verus! {

/// Bytes in the byte form of a [`Token`].
pub const TOKEN_BYTES: usize = 9;

/// Bytes in the byte form of a [`TokenAccount`].
pub const TOKEN_ACCOUNT_BYTES: usize = 113;

/// A kind of token, which all accounts that hold it refer to.
#[derive(Clone, Copy, Debug, PartialEq, Eq, Structural)]
pub struct Token {
    /// Total supply of tokens.
    pub supply: u64,
    /// Number of base 10 digits to the right of the decimal point in the
    /// total supply.
    pub decimals: u8,
}

impl Default for Token {
    fn default() -> (token: Token)
        ensures
            token == (Token { supply: 0, decimals: 0 }),
    {
        Token { supply: 0, decimals: 0 }
    }
}

impl SimpleSerde for Token {
    /// Nine bytes: the supply, then the decimals.
    open spec fn spec_size() -> nat {
        9
    }

    open spec fn spec_encode(&self) -> Seq<u8> {
        u64_to_le(self.supply).push(self.decimals)
    }

    open spec fn spec_decode(bytes: Seq<u8>) -> Result<Token, TokenError> {
        Ok(Token { supply: u64_from_le(bytes.subrange(0, 8)) as u64, decimals: bytes[8] })
    }

    proof fn lemma_encoded_size(&self) {
    }

    proof fn lemma_round_trip(&self) {
        lemma_u64_le_round_trip(self.supply);
        assert(self.spec_encode().subrange(0, 8) =~= u64_to_le(self.supply));
    }

    fn deserialize(input: &[u8]) -> (outcome: Result<Token, TokenError>) {
        if input.len() < TOKEN_BYTES {
            return Err(TokenError::InvalidUserdata);
        }
        let supply = read_u64(input, 0);
        let decimals = input[8];
        proof {
            assert(input@.subrange(0, 9).subrange(0, 8) =~= input@.subrange(0, 8));
        }
        Ok(Token { supply, decimals })
    }

    fn serialize(&self, output: &mut [u8]) -> (outcome: Result<(), TokenError>) {
        if output.len() < TOKEN_BYTES {
            return Err(TokenError::InvalidUserdata);
        }
        write_u64(output, 0, self.supply);
        output[8] = self.decimals;
        proof {
            assert(output@ =~= overwrite(old(output)@, 0, self.spec_encode()));
        }
        Ok(())
    }
}

/// What a delegate account records of the account it spends from.
#[derive(Clone, Copy, Debug, PartialEq)]
pub struct TokenAccountDelegate {
    /// The account that the tokens are taken from.
    pub source: Pubkey,
    /// The amount that the delegate was last authorised to spend.
    pub original_amount: u64,
}

impl Default for TokenAccountDelegate {
    fn default() -> (delegate: TokenAccountDelegate)
        ensures
            delegate.source@ == Seq::new(32, |i: int| 0u8),
            delegate.original_amount == 0,
    {
        TokenAccountDelegate { source: Pubkey::default(), original_amount: 0 }
    }
}

/// An account that holds tokens, or that may spend another account's tokens.
#[derive(Clone, Copy, Debug, PartialEq)]
pub struct TokenAccount {
    /// The kind of token this account holds.
    pub token: Pubkey,
    /// Owner of this account.
    pub owner: Pubkey,
    /// With no `delegate`, the balance of this account. With a `delegate`,
    /// the allowance that is left to spend from the delegate's source account.
    pub amount: u64,
    /// Present when this account is a delegate.
    pub delegate: Option<TokenAccountDelegate>,
}

impl Default for TokenAccount {
    fn default() -> (account: TokenAccount)
        ensures
            account.token@ == Seq::new(32, |i: int| 0u8),
            account.owner@ == Seq::new(32, |i: int| 0u8),
            account.amount == 0,
            account.delegate.is_none(),
    {
        TokenAccount {
            token: Pubkey::default(),
            owner: Pubkey::default(),
            amount: 0,
            delegate: None,
        }
    }
}

/// A run of `count` zero bytes.
pub open spec fn zero_bytes(count: nat) -> Seq<u8> {
    Seq::new(count, |i: int| 0u8)
}

/// The last 41 bytes of an account's byte form: a tag, which is 1 when the
/// account is a delegate and 0 when it is not, then the source account and the
/// authorised amount. Without a delegate all 41 bytes are zero.
pub open spec fn delegate_bytes(delegate: Option<TokenAccountDelegate>) -> Seq<u8> {
    match delegate {
        None => zero_bytes(41),
        Some(d) => seq![1u8] + d.source@ + u64_to_le(d.original_amount),
    }
}

/// The delegate that 41 bytes stand for. A tag of 0 stands for none, whatever
/// follows it; a tag other than 0 and 1 is rejected.
pub open spec fn delegate_from_bytes(bytes: Seq<u8>) -> Result<
    Option<TokenAccountDelegate>,
    TokenError,
>
    recommends
        bytes.len() == 41,
{
    if bytes[0] == 0 {
        Ok(None)
    } else if bytes[0] == 1 {
        Ok(
            Some(
                TokenAccountDelegate {
                    source: Pubkey::spec_new(bytes.subrange(1, 33)),
                    original_amount: u64_from_le(bytes.subrange(33, 41)) as u64,
                },
            ),
        )
    } else {
        Err(TokenError::InvalidUserdata)
    }
}

/// The delegate that is read back from the byte form of a delegate is that
/// delegate.
pub proof fn lemma_delegate_round_trip(delegate: Option<TokenAccountDelegate>)
    ensures
        delegate_bytes(delegate).len() == 41,
        delegate_from_bytes(delegate_bytes(delegate)) == Ok::<
            Option<TokenAccountDelegate>,
            TokenError,
        >(delegate),
{
    match delegate {
        None => {},
        Some(d) => {
            let bytes = delegate_bytes(delegate);
            d.source.lemma_view_injective(d.source);
            d.source.lemma_spec_new_view();
            lemma_u64_le_round_trip(d.original_amount);
            assert(bytes.subrange(1, 33) =~= d.source@);
            assert(bytes.subrange(33, 41) =~= u64_to_le(d.original_amount));
        },
    }
}

impl SimpleSerde for TokenAccount {
    /// 113 bytes: the token, the owner, the amount, then the delegate.
    open spec fn spec_size() -> nat {
        113
    }

    open spec fn spec_encode(&self) -> Seq<u8> {
        self.token@ + self.owner@ + u64_to_le(self.amount) + delegate_bytes(self.delegate)
    }

    open spec fn spec_decode(bytes: Seq<u8>) -> Result<TokenAccount, TokenError> {
        match delegate_from_bytes(bytes.subrange(72, 113)) {
            Ok(delegate) => Ok(
                TokenAccount {
                    token: Pubkey::spec_new(bytes.subrange(0, 32)),
                    owner: Pubkey::spec_new(bytes.subrange(32, 64)),
                    amount: u64_from_le(bytes.subrange(64, 72)) as u64,
                    delegate,
                },
            ),
            Err(e) => Err(e),
        }
    }

    proof fn lemma_encoded_size(&self) {
        self.token.lemma_view_injective(self.token);
        self.owner.lemma_view_injective(self.owner);
        lemma_u64_le_round_trip(self.amount);
        lemma_delegate_round_trip(self.delegate);
    }

    proof fn lemma_round_trip(&self) {
        let bytes = self.spec_encode();
        self.lemma_encoded_size();
        self.token.lemma_spec_new_view();
        self.owner.lemma_spec_new_view();
        lemma_u64_le_round_trip(self.amount);
        lemma_delegate_round_trip(self.delegate);
        assert(bytes.subrange(0, 32) =~= self.token@);
        assert(bytes.subrange(32, 64) =~= self.owner@);
        assert(bytes.subrange(64, 72) =~= u64_to_le(self.amount));
        assert(bytes.subrange(72, 113) =~= delegate_bytes(self.delegate));
    }

    fn deserialize(input: &[u8]) -> (outcome: Result<TokenAccount, TokenError>) {
        if input.len() < TOKEN_ACCOUNT_BYTES {
            return Err(TokenError::InvalidUserdata);
        }
        let ghost bytes = input@.subrange(0, 113);
        proof {
            assert(bytes.subrange(0, 32) =~= input@.subrange(0, 32));
            assert(bytes.subrange(32, 64) =~= input@.subrange(32, 64));
            assert(bytes.subrange(64, 72) =~= input@.subrange(64, 72));
            assert(bytes.subrange(72, 113).subrange(1, 33) =~= input@.subrange(73, 105));
            assert(bytes.subrange(72, 113).subrange(33, 41) =~= input@.subrange(105, 113));
        }
        let token = Pubkey::read(input, 0);
        let owner = Pubkey::read(input, 32);
        let amount = read_u64(input, 64);
        let tag = input[72];
        let delegate = if tag == 0 {
            None
        } else if tag == 1 {
            let source = Pubkey::read(input, 73);
            let original_amount = read_u64(input, 105);
            Some(TokenAccountDelegate { source, original_amount })
        } else {
            return Err(TokenError::InvalidUserdata);
        };
        Ok(TokenAccount { token, owner, amount, delegate })
    }

    fn serialize(&self, output: &mut [u8]) -> (outcome: Result<(), TokenError>) {
        if output.len() < TOKEN_ACCOUNT_BYTES {
            return Err(TokenError::InvalidUserdata);
        }
        let ghost before = output@;
        let ghost front = self.token@ + self.owner@;
        let ghost head = front + u64_to_le(self.amount);
        proof {
            self.lemma_encoded_size();
        }
        self.token.write(output, 0);
        self.owner.write(output, 32);
        proof {
            lemma_overwrite_adjacent(before, 0, self.token@, self.owner@);
        }
        write_u64(output, 64, self.amount);
        proof {
            lemma_overwrite_adjacent(before, 0, front, u64_to_le(self.amount));
        }
        write_delegate(&self.delegate, output, 72);
        proof {
            lemma_overwrite_adjacent(before, 0, head, delegate_bytes(self.delegate));
        }
        Ok(())
    }
}

/// Clears the 41 bytes of `output` that start at `at`.
fn write_zeros(output: &mut [u8], at: usize)
    requires
        at + 41 <= old(output).len(),
    ensures
        final(output)@ == overwrite(old(output)@, at as int, zero_bytes(41)),
{
    let mut k: usize = 0;
    while k < 41
        invariant
            k <= 41,
            output.len() == old(output).len(),
            at + 41 <= output.len(),
            forall|i: int|
                0 <= i < output.len() && !(at <= i < at + k) ==> output@[i] == old(output)@[i],
            forall|i: int| at <= i < at + k ==> output@[i] == 0u8,
        decreases 41 - k,
    {
        output[at + k] = 0;
        k += 1;
    }
    proof {
        assert(output@ =~= overwrite(old(output)@, at as int, zero_bytes(41)));
    }
}

/// Writes the byte form of `delegate` into the 41 bytes of `output` that start
/// at `at`.
fn write_delegate(delegate: &Option<TokenAccountDelegate>, output: &mut [u8], at: usize)
    requires
        at + 41 <= old(output).len(),
    ensures
        final(output)@ == overwrite(old(output)@, at as int, delegate_bytes(*delegate)),
{
    let ghost before = output@;
    match delegate {
        None => {
            write_zeros(output, at);
        },
        Some(d) => {
            output[at] = 1;
            proof {
                d.source.lemma_view_injective(d.source);
                lemma_u64_le_round_trip(d.original_amount);
                assert(output@ =~= overwrite(before, at as int, seq![1u8]));
            }
            d.source.write(output, at + 1);
            proof {
                lemma_overwrite_adjacent(before, at as int, seq![1u8], d.source@);
            }
            write_u64(output, at + 33, d.original_amount);
            proof {
                lemma_overwrite_adjacent(
                    before,
                    at as int,
                    seq![1u8] + d.source@,
                    u64_to_le(d.original_amount),
                );
            }
        },
    }
}

/// What a token is read from: every nine bytes stand for a token, and they
/// are the byte form of that token.
pub proof fn lemma_token_fields(bytes: Seq<u8>)
    requires
        bytes.len() == 9,
    ensures
        Token::spec_decode(bytes) matches Ok(token) && {
            &&& token.supply == u64_from_le(bytes.subrange(0, 8))
            &&& token.decimals == bytes[8]
            &&& token.spec_encode() == bytes
        },
{
    lemma_u64_from_le_bound(bytes.subrange(0, 8));
    lemma_u64_le_bytes_round_trip(bytes.subrange(0, 8));
    let token = Token::spec_decode(bytes)->Ok_0;
    assert(token.spec_encode() =~= bytes);
}

/// What a token account is read from: 113 bytes stand for a token account
/// exactly when the delegate's tag, at position 72, is 0 or 1. The fields of
/// the account then hold the bytes at their places, and the account is a
/// delegate exactly when the tag is 1. The bytes of a delegate are its byte
/// form again.
pub proof fn lemma_account_fields(bytes: Seq<u8>)
    requires
        bytes.len() == 113,
    ensures
        TokenAccount::spec_decode(bytes).is_ok() <==> bytes[72] <= 1,
        TokenAccount::spec_decode(bytes) matches Err(e) ==> e == TokenError::InvalidUserdata,
        TokenAccount::spec_decode(bytes) matches Ok(account) ==> {
            &&& account.token@ == bytes.subrange(0, 32)
            &&& account.owner@ == bytes.subrange(32, 64)
            &&& account.amount == u64_from_le(bytes.subrange(64, 72))
            &&& account.delegate.is_some() <==> bytes[72] == 1
            &&& account.delegate matches Some(d) ==> {
                &&& d.source@ == bytes.subrange(73, 105)
                &&& d.original_amount == u64_from_le(bytes.subrange(105, 113))
                &&& account.spec_encode() == bytes
            }
        },
{
    let tail = bytes.subrange(72, 113);
    Pubkey::lemma_spec_new_bytes(bytes.subrange(0, 32));
    Pubkey::lemma_spec_new_bytes(bytes.subrange(32, 64));
    lemma_u64_from_le_bound(bytes.subrange(64, 72));
    lemma_u64_le_bytes_round_trip(bytes.subrange(64, 72));
    assert(tail.subrange(1, 33) =~= bytes.subrange(73, 105));
    assert(tail.subrange(33, 41) =~= bytes.subrange(105, 113));
    Pubkey::lemma_spec_new_bytes(bytes.subrange(73, 105));
    lemma_u64_from_le_bound(bytes.subrange(105, 113));
    lemma_u64_le_bytes_round_trip(bytes.subrange(105, 113));
    if bytes[72] == 1 {
        let account = TokenAccount::spec_decode(bytes)->Ok_0;
        assert(account.spec_encode() =~= bytes);
    }
}

/// What an account buffer of the token program holds.
#[derive(Clone, Copy, Debug, PartialEq)]
pub enum State {
    /// Nothing yet: the state of a buffer before an instruction fills it.
    Unallocated,
    /// The description of a kind of token.
    Token(Token),
    /// A token account.
    Account(TokenAccount),
    /// A buffer that the program may not interpret. This state is only ever
    /// held in memory.
    Invalid,
}

impl Default for State {
    fn default() -> (state: State)
        ensures
            state == State::Unallocated,
    {
        State::Unallocated
    }
}

impl State {
    /// Whether this state has a byte form. Only tokens and accounts do.
    pub open spec fn spec_serializable(&self) -> bool {
        *self is Token || *self is Account
    }

    /// The byte form of a token or an account: a tag, 1 for a token and 2 for
    /// an account, then the byte form of the record.
    pub open spec fn spec_encode(&self) -> Seq<u8> {
        match *self {
            State::Token(token) => seq![1u8] + token.spec_encode(),
            State::Account(account) => seq![2u8] + account.spec_encode(),
            _ => Seq::empty(),
        }
    }

    /// What writing this state to a buffer that holds `buffer` gives: the new
    /// content of the buffer, or the error with which the write is refused.
    /// A state without a byte form is refused whatever the buffer; a token
    /// or an account is refused when the buffer is too short for it.
    pub open spec fn spec_serialize(&self, buffer: Seq<u8>) -> Result<Seq<u8>, TokenError> {
        if !self.spec_serializable() {
            Err(TokenError::UnserializableState)
        } else if buffer.len() < self.spec_encode().len() {
            Err(TokenError::InvalidUserdata)
        } else {
            Ok(overwrite(buffer, 0, self.spec_encode()))
        }
    }

    /// The state that the buffer content `input` stands for, or the error with
    /// which it is rejected. The first byte is a tag: 0 stands for an
    /// unallocated buffer, whatever follows; 1 for a token and 2 for an
    /// account, each followed by the record. An empty buffer, a record that is
    /// cut short or malformed, and every other tag are rejected with
    /// `InvalidUserdata`.
    pub open spec fn spec_deserialize(input: Seq<u8>) -> Result<State, TokenError> {
        if input.len() < 1 {
            Err(TokenError::InvalidUserdata)
        } else if input[0] == 0 {
            Ok(State::Unallocated)
        } else if input[0] == 1 {
            match deserialized::<Token>(input.skip(1)) {
                Ok(token) => Ok(State::Token(token)),
                Err(e) => Err(e),
            }
        } else if input[0] == 2 {
            match deserialized::<TokenAccount>(input.skip(1)) {
                Ok(account) => Ok(State::Account(account)),
                Err(e) => Err(e),
            }
        } else {
            Err(TokenError::InvalidUserdata)
        }
    }

    /// Reads the state that an account buffer holds.
    pub fn deserialize(input: &[u8]) -> (outcome: Result<State, TokenError>)
        ensures
            outcome == State::spec_deserialize(input@),
    {
        if input.len() < 1 {
            return Err(TokenError::InvalidUserdata);
        }
        let tag = input[0];
        let payload = slice_subrange(input, 1, input.len());
        if tag == 0 {
            Ok(State::Unallocated)
        } else if tag == 1 {
            match Token::deserialize(payload) {
                Ok(token) => Ok(State::Token(token)),
                Err(e) => Err(e),
            }
        } else if tag == 2 {
            match TokenAccount::deserialize(payload) {
                Ok(account) => Ok(State::Account(account)),
                Err(e) => Err(e),
            }
        } else {
            Err(TokenError::InvalidUserdata)
        }
    }

    /// Writes this state over the front of an account buffer, from which it
    /// can then be read back. On an error the buffer is left as it was.
    pub fn serialize(&self, output: &mut [u8]) -> (outcome: Result<(), TokenError>)
        ensures
            match self.spec_serialize(old(output)@) {
                Ok(written) => outcome.is_ok() && final(output)@ == written,
                Err(e) => outcome == Err::<(), TokenError>(e) && final(output)@ == old(output)@,
            },
            outcome.is_ok() ==> State::spec_deserialize(final(output)@) == Ok::<State, TokenError>(
                *self,
            ),
    {
        proof {
            if self.spec_serialize(output@).is_ok() {
                self.lemma_serialize_then_deserialize(output@);
            }
        }
        match self {
            State::Token(token) => {
                proof {
                    token.lemma_encoded_size();
                }
                if output.len() < 1 + TOKEN_BYTES {
                    return Err(TokenError::InvalidUserdata);
                }
                output[0] = 1;
                let (tag, payload) = output.split_at_mut(1);
                let outcome = token.serialize(payload);
                proof {
                    assert(output@ =~= overwrite(old(output)@, 0, self.spec_encode()));
                }
                outcome
            },
            State::Account(account) => {
                proof {
                    account.lemma_encoded_size();
                }
                if output.len() < 1 + TOKEN_ACCOUNT_BYTES {
                    return Err(TokenError::InvalidUserdata);
                }
                output[0] = 2;
                let (tag, payload) = output.split_at_mut(1);
                let outcome = account.serialize(payload);
                proof {
                    assert(output@ =~= overwrite(old(output)@, 0, self.spec_encode()));
                }
                outcome
            },
            _ => Err(TokenError::UnserializableState),
        }
    }

    /// A token or an account that was written to a buffer is the state that
    /// the buffer then holds.
    pub proof fn lemma_serialize_then_deserialize(self, buffer: Seq<u8>)
        requires
            self.spec_serialize(buffer).is_ok(),
        ensures
            State::spec_deserialize(self.spec_serialize(buffer).unwrap()) == Ok::<
                State,
                TokenError,
            >(self),
    {
        let written = self.spec_serialize(buffer).unwrap();
        match self {
            State::Token(token) => {
                token.lemma_encoded_size();
                lemma_serialize_then_deserialize(token, buffer.skip(1));
                assert(written.skip(1) =~= overwrite(buffer.skip(1), 0, token.spec_encode()));
            },
            State::Account(account) => {
                account.lemma_encoded_size();
                lemma_serialize_then_deserialize(account, buffer.skip(1));
                assert(written.skip(1) =~= overwrite(buffer.skip(1), 0, account.spec_encode()));
            },
            _ => {},
        }
    }
}

/// The instructions that the token program accepts. The accounts that an
/// instruction works on are not part of it: they come beside it as a list, and
/// each instruction gives every position in that list its meaning.
#[derive(Clone, Copy, Debug, PartialEq, Eq, Structural)]
pub enum Command {
    /// Creates a kind of token and hands its whole supply to one account.
    /// Accounts: the new token, which signs; the account that receives the
    /// supply.
    NewToken(Token),
    /// Creates an empty token account. Accounts: the new account; its owner;
    /// the token it holds; and, for a delegate, the account it spends from.
    NewTokenAccount,
    /// Moves an amount between accounts. Accounts: the owner of the source,
    /// who signs; the source, or a delegate of it; the destination; and, where
    /// the second account is a delegate, the account it spends from.
    Transfer(u64),
    /// Sets what a delegate may spend. Accounts: the owner of the source, who
    /// signs; the source; the delegate.
    Approve(u64),
    /// Hands an account to a new owner. Accounts: the current owner, who
    /// signs; the account; the new owner.
    SetOwner,
}

impl Command {
    /// The byte form of this instruction: a tag, then the token for
    /// `NewToken` and the amount for `Transfer` and `Approve`.
    pub open spec fn spec_encode(&self) -> Seq<u8> {
        match *self {
            Command::NewToken(token) => seq![0u8] + token.spec_encode(),
            Command::NewTokenAccount => seq![1u8],
            Command::Transfer(amount) => seq![2u8] + u64_to_le(amount),
            Command::Approve(amount) => seq![3u8] + u64_to_le(amount),
            Command::SetOwner => seq![4u8],
        }
    }

    /// The instruction that `input` stands for, or the error with which it is
    /// rejected: `InvalidUserdata` for an empty input, for an operand that is
    /// cut short and for a tag above 4. Bytes behind the operand are ignored.
    pub open spec fn spec_deserialize(input: Seq<u8>) -> Result<Command, TokenError> {
        if input.len() < 1 {
            Err(TokenError::InvalidUserdata)
        } else if input[0] == 0 {
            match deserialized::<Token>(input.skip(1)) {
                Ok(token) => Ok(Command::NewToken(token)),
                Err(e) => Err(e),
            }
        } else if input[0] == 1 {
            Ok(Command::NewTokenAccount)
        } else if input[0] == 2 {
            if input.len() < 9 {
                Err(TokenError::InvalidUserdata)
            } else {
                Ok(Command::Transfer(u64_from_le(input.subrange(1, 9)) as u64))
            }
        } else if input[0] == 3 {
            if input.len() < 9 {
                Err(TokenError::InvalidUserdata)
            } else {
                Ok(Command::Approve(u64_from_le(input.subrange(1, 9)) as u64))
            }
        } else if input[0] == 4 {
            Ok(Command::SetOwner)
        } else {
            Err(TokenError::InvalidUserdata)
        }
    }

    /// Reads an instruction from its byte form.
    pub fn deserialize(input: &[u8]) -> (outcome: Result<Command, TokenError>)
        ensures
            outcome == Command::spec_deserialize(input@),
    {
        if input.len() < 1 {
            return Err(TokenError::InvalidUserdata);
        }
        let tag = input[0];
        if tag == 0 {
            let payload = slice_subrange(input, 1, input.len());
            match Token::deserialize(payload) {
                Ok(token) => Ok(Command::NewToken(token)),
                Err(e) => Err(e),
            }
        } else if tag == 1 {
            Ok(Command::NewTokenAccount)
        } else if tag == 2 || tag == 3 {
            if input.len() < 9 {
                return Err(TokenError::InvalidUserdata);
            }
            let amount = read_u64(input, 1);
            if tag == 2 {
                Ok(Command::Transfer(amount))
            } else {
                Ok(Command::Approve(amount))
            }
        } else if tag == 4 {
            Ok(Command::SetOwner)
        } else {
            Err(TokenError::InvalidUserdata)
        }
    }

    /// Writes this instruction over the front of `output`, from which it can
    /// then be read back. A buffer that is too short for it is rejected with
    /// `InvalidUserdata` and left as it was.
    pub fn serialize(&self, output: &mut [u8]) -> (outcome: Result<(), TokenError>)
        ensures
            old(output)@.len() >= self.spec_encode().len() ==> outcome.is_ok() && final(output)@
                == overwrite(old(output)@, 0, self.spec_encode()),
            old(output)@.len() < self.spec_encode().len() ==> outcome == Err::<(), TokenError>(
                TokenError::InvalidUserdata,
            ) && final(output)@ == old(output)@,
            outcome.is_ok() ==> Command::spec_deserialize(final(output)@) == Ok::<
                Command,
                TokenError,
            >(*self),
    {
        proof {
            self.lemma_encoded_size();
            if output@.len() >= self.spec_encode().len() {
                self.lemma_serialize_then_deserialize(output@);
            }
        }
        if output.len() < 1 {
            return Err(TokenError::InvalidUserdata);
        }
        let ghost before = output@;
        match self {
            Command::NewToken(token) => {
                if output.len() < 1 + TOKEN_BYTES {
                    return Err(TokenError::InvalidUserdata);
                }
                output[0] = 0;
                let (tag, payload) = output.split_at_mut(1);
                let outcome = token.serialize(payload);
                proof {
                    assert(output@ =~= overwrite(before, 0, self.spec_encode()));
                }
                outcome
            },
            Command::NewTokenAccount => {
                output[0] = 1;
                proof {
                    assert(output@ =~= overwrite(before, 0, self.spec_encode()));
                }
                Ok(())
            },
            Command::Transfer(amount) => {
                if output.len() < 9 {
                    return Err(TokenError::InvalidUserdata);
                }
                output[0] = 2;
                write_u64(output, 1, *amount);
                proof {
                    assert(output@ =~= overwrite(before, 0, self.spec_encode()));
                }
                Ok(())
            },
            Command::Approve(amount) => {
                if output.len() < 9 {
                    return Err(TokenError::InvalidUserdata);
                }
                output[0] = 3;
                write_u64(output, 1, *amount);
                proof {
                    assert(output@ =~= overwrite(before, 0, self.spec_encode()));
                }
                Ok(())
            },
            Command::SetOwner => {
                output[0] = 4;
                proof {
                    assert(output@ =~= overwrite(before, 0, self.spec_encode()));
                }
                Ok(())
            },
        }
    }

    /// The byte form of an instruction takes 10 bytes for `NewToken`, 9 bytes
    /// for `Transfer` and `Approve`, and 1 byte for the others.
    pub proof fn lemma_encoded_size(self)
        ensures
            self.spec_encode().len() == match self {
                Command::NewToken(_) => 10nat,
                Command::Transfer(_) | Command::Approve(_) => 9nat,
                _ => 1nat,
            },
    {
        match self {
            Command::NewToken(token) => {
                token.lemma_encoded_size();
            },
            Command::Transfer(amount) | Command::Approve(amount) => {
                lemma_u64_le_round_trip(amount);
            },
            _ => {},
        }
    }

    /// An instruction that was written to a buffer is the instruction that
    /// is read from that buffer.
    pub proof fn lemma_serialize_then_deserialize(self, buffer: Seq<u8>)
        requires
            buffer.len() >= self.spec_encode().len(),
        ensures
            Command::spec_deserialize(overwrite(buffer, 0, self.spec_encode())) == Ok::<
                Command,
                TokenError,
            >(self),
    {
        let written = overwrite(buffer, 0, self.spec_encode());
        self.lemma_encoded_size();
        match self {
            Command::NewToken(token) => {
                token.lemma_encoded_size();
                lemma_serialize_then_deserialize(token, buffer.skip(1));
                assert(written.skip(1) =~= overwrite(buffer.skip(1), 0, token.spec_encode()));
            },
            Command::Transfer(amount) | Command::Approve(amount) => {
                lemma_u64_le_round_trip(amount);
                assert(written.subrange(1, 9) =~= u64_to_le(amount));
            },
            _ => {},
        }
    }
}

/// Takes the next item from `iter`, or fails with `NotEnoughAccountKeys`
/// when none is left. The processor walks its list of accounts with it: each
/// call hands out the account at the next position.
///
/// The items that are left in an iterator are known for the iterators that
/// keep to the laws of iteration, such as those of slices; of any other
/// iterator the contract only tells which error can come back.
pub fn next_account_info<I: Iterator>(iter: &mut I) -> (outcome: Result<I::Item, TokenError>)
    ensures
        outcome is Err ==> outcome->Err_0 == TokenError::NotEnoughAccountKeys,
        <I as IteratorSpec>::obeys_prophetic_iter_laws(final(iter)) == <
            I as IteratorSpec
        >::obeys_prophetic_iter_laws(old(iter)),
        <I as IteratorSpec>::obeys_prophetic_iter_laws(old(iter)) ==> {
            let left = <I as IteratorSpec>::remaining(old(iter));
            let left_after = <I as IteratorSpec>::remaining(final(iter));
            if left.len() > 0 {
                outcome == Ok::<I::Item, TokenError>(left[0]) && left_after == left.drop_first()
            } else {
                outcome is Err && left_after == left
            }
        },
{
    match iter.next() {
        Some(account) => Ok(account),
        None => Err(TokenError::NotEnoughAccountKeys),
    }
}

} // verus!
