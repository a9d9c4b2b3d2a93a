//! The account protocol of a transfer hook.
//!
//! A hook declares the extra accounts it needs in a list that is stored
//! on chain. Whoever builds a transfer reads the list and appends the
//! accounts it resolves to; the hook then finds them in its account
//! array, in the same order. This crate holds both sides:
//!
//! - [`meta`] and [`seeds`]: one record of the list and its fixed-size
//!   binary form, with the seeds of a derivation rule;
//! - [`list`]: the list as bytes, written by `init` and read by `unpack`;
//! - [`validate`]: the rule that a record refers only to accounts placed
//!   before it;
//! - [`pda`] and [`resolve`]: resolution of a list into the accounts to
//!   append;
//! - [`instruction`] and [`dispatch`]: the hook's decoding of its payload
//!   and its walk over the account array;
//! - [`laws`]: what holds across these parts.
//!
//! Contracts are stated over mathematical values: a byte buffer is a
//! `Seq<u8>`, a record a [`meta::MetaView`], and each executable function
//! states its result through a `spec` function of the same meaning.

use vstd::prelude::*;
use crate::dispatch::count_extra_accounts;
use crate::dispatch::dispatch;
use crate::dispatch::hook_outcome;
use crate::dispatch::Account;
use crate::dispatch::DispatchError;
use crate::instruction::is_execute;
use crate::meta::Address;

pub mod dispatch;
pub mod instruction;
pub mod laws;
pub mod list;
pub mod meta;
pub mod pda;
pub mod resolve;
pub mod seeds;
pub mod validate;
pub mod wire;

verus! {

/// What an invocation comes to: a payload other than `Execute` is
/// refused whatever the accounts are; an `Execute` payload gives what
/// the hook makes of the account array.
pub open spec fn process_outcome(accounts: Seq<Account>, input: Seq<u8>) -> Result<
    u8,
    DispatchError,
> {
    if is_execute(input) {
        hook_outcome(accounts)
    } else {
        Err(DispatchError::UnrecognizedInstruction)
    }
}

/// The hook's entry point. Dispatches the invocation, then counts the
/// extra accounts, and returns the number that the counter declares.
pub fn process(_program_id: &Address, accounts: &[Account], input: &[u8]) -> (r: Result<
    u8,
    DispatchError,
>)
    ensures
        r == process_outcome(accounts@, input@),
{
    let dispatched = dispatch(accounts, input)?;
    let mut extra = dispatched.extra;
    count_extra_accounts(&mut extra)
}

} // verus!
