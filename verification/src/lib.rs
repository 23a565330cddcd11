//! A fungible-token ledger program.
//!
//! The program keeps two kinds of records in account buffers: tokens, which
//! describe a kind of token, and token accounts, which hold an amount of one
//! token for an owner or let a delegate spend from another account. A host
//! calls the program once per instruction, with a list of accounts and the
//! bytes of the instruction; the program checks the instruction against what
//! the accounts hold and, if all is in order, writes the new records back.
//!
//! - [`state`] holds the records, the instructions and their byte forms;
//! - [`rules`] states, for each instruction, what it makes of a list of
//!   accounts;
//! - [`processor`] carries the rules out on the buffers;
//! - [`laws`] proves what holds of the rules whatever the accounts are.
//!
//! Byte forms are fixed: a state is a tag byte, 1 for a token and 2 for a
//! token account, followed by the fields of the record in order, integers
//! least significant byte first. A buffer that starts with 0 is unallocated.
//! Any other tag, and any record that is cut short, is rejected when read.
//! An account that belongs to another program is never read: the program
//! treats it as invalid, so every rule that needs a record there fails, and
//! no rule writes to it.

pub mod account;
pub mod bytes;
pub mod error;
pub mod laws;
pub mod processor;
pub mod pubkey;
pub mod rules;
pub mod simple_serde;
pub mod state;
