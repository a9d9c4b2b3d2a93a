//! The hook's side of the protocol: a cursor over the account array, and
//! the consumer that counts the extra accounts.
//!
//! The array holds, in this order: source token account, mint,
//! destination token account, source owner, the account that stores the
//! list, then the extra accounts as resolution produced them. The first
//! extra account is the counter: its first data byte declares how many
//! extra accounts there are, the counter included.

use vstd::prelude::*;
use crate::instruction::decode_execute;
use crate::instruction::execute_amount;
use crate::instruction::is_execute;
use crate::meta::Address;
use crate::validate::BASE_ACCOUNT_COUNT;

verus! {

/// An account as the hook receives it.
#[derive(Clone, Debug, PartialEq, Eq)]
pub struct Account {
    pub key: Address,
    pub is_signer: bool,
    pub is_writable: bool,
    pub data: Vec<u8>,
}

/// Why an invocation was refused.
#[derive(Clone, Copy, Debug, PartialEq, Eq)]
pub enum DispatchError {
    /// The payload is no `Execute` instruction.
    UnrecognizedInstruction,
    /// The account array ends before an account that the layout, or the
    /// counter, calls for.
    MissingAccount,
    /// The counter account holds no byte to read.
    EmptyCounter,
}

/// A position in an account array. Accounts are taken one at a time, in
/// order, and running out is an error, not a panic.
pub struct AccountCursor<'a> {
    accounts: &'a [Account],
    position: usize,
}

impl<'a> AccountCursor<'a> {
    #[verifier::type_invariant]
    spec fn inv(self) -> bool {
        self.position <= self.accounts@.len()
    }

    /// The array that the cursor walks.
    pub closed spec fn accounts(self) -> Seq<Account> {
        self.accounts@
    }

    /// Number of accounts taken so far.
    pub closed spec fn position(self) -> nat {
        self.position as nat
    }

    /// A cursor at the first account of `accounts`.
    pub fn new(accounts: &'a [Account]) -> (cursor: Self)
        ensures
            cursor.accounts() == accounts@,
            cursor.position() == 0,
    {
        AccountCursor { accounts, position: 0 }
    }

    /// Takes the next account, or fails with `MissingAccount` and stays
    /// where it is when none is left.
    pub fn next_account(&mut self) -> (r: Result<&'a Account, DispatchError>)
        ensures
            final(self).accounts() == old(self).accounts(),
            old(self).position() <= old(self).accounts().len(),
            match r {
                Ok(account) => {
                    &&& old(self).position() < old(self).accounts().len()
                    &&& *account == old(self).accounts()[old(self).position() as int]
                    &&& final(self).position() == old(self).position() + 1
                },
                Err(e) => {
                    &&& e == DispatchError::MissingAccount
                    &&& old(self).position() == old(self).accounts().len()
                    &&& final(self).position() == old(self).position()
                },
            },
    {
        proof {
            use_type_invariant(&*self);
        }
        if self.position < self.accounts.len() {
            let account = &self.accounts[self.position];
            self.position = self.position + 1;
            Ok(account)
        } else {
            Err(DispatchError::MissingAccount)
        }
    }

    /// Number of accounts not yet taken.
    pub fn remaining(&self) -> (n: usize)
        ensures
            n == self.accounts().len() - self.position(),
    {
        proof {
            use_type_invariant(self);
        }
        self.accounts.len() - self.position
    }
}

/// What the consumer makes of an account array whose counter stands at
/// position `start`: the count that the counter's first data byte
/// declares, once the array is seen to hold the counter, a byte in it,
/// and as many accounts from the counter on as that byte says. A count of
/// zero calls for no account beyond the counter.
pub open spec fn count_outcome(accounts: Seq<Account>, start: nat) -> Result<u8, DispatchError> {
    if accounts.len() <= start {
        Err(DispatchError::MissingAccount)
    } else if accounts[start as int].data@.len() == 0 {
        Err(DispatchError::EmptyCounter)
    } else {
        let count = accounts[start as int].data@[0];
        if accounts.len() < start + count {
            Err(DispatchError::MissingAccount)
        } else {
            Ok(count)
        }
    }
}

/// What the hook makes of an account array: the outcome of counting the
/// extra accounts that follow the five base accounts.
pub open spec fn hook_outcome(accounts: Seq<Account>) -> Result<u8, DispatchError> {
    count_outcome(accounts, BASE_ACCOUNT_COUNT as nat)
}

/// Where a cursor stands after a count of `count` from `start`: past the
/// counter and the accounts it declares.
pub open spec fn position_after(start: nat, count: u8) -> nat {
    if count == 0 {
        start + 1
    } else {
        start + count as nat
    }
}

/// Takes the extra accounts from a cursor that stands at the counter:
/// reads the declared count from the counter's first data byte, then
/// takes one account for each further extra account, and returns the
/// count. On success the cursor stands past the accounts it counted.
pub fn count_extra_accounts(cursor: &mut AccountCursor) -> (r: Result<u8, DispatchError>)
    ensures
        final(cursor).accounts() == old(cursor).accounts(),
        r == count_outcome(old(cursor).accounts(), old(cursor).position()),
        r matches Ok(count) ==> final(cursor).position() == position_after(
            old(cursor).position(),
            count,
        ),
{
    let ghost start = cursor.position();
    let counter = cursor.next_account()?;
    if counter.data.len() == 0 {
        return Err(DispatchError::EmptyCounter);
    }
    let count: u8 = counter.data[0];
    let mut taken: u8 = 1;
    while taken < count
        invariant
            1 <= taken,
            taken <= count || (count == 0 && taken == 1),
            start == old(cursor).position(),
            cursor.accounts() == old(cursor).accounts(),
            cursor.position() == start + taken,
            cursor.position() <= cursor.accounts().len(),
            cursor.accounts().len() > start,
            cursor.accounts()[start as int].data@.len() > 0,
            count == cursor.accounts()[start as int].data@[0],
        decreases count - taken,
    {
        match cursor.next_account() {
            Ok(_) => {},
            Err(e) => {
                return Err(e);
            },
        }
        taken = taken + 1;
    }
    Ok(count)
}

/// Takes the five base accounts of an invocation in their fixed order,
/// and returns the cursor that stands at the first extra account. Fails
/// with `MissingAccount` exactly when the array holds fewer than five
/// accounts.
pub fn take_base_accounts(accounts: &[Account]) -> (r: Result<AccountCursor<'_>, DispatchError>)
    ensures
        match r {
            Ok(cursor) => {
                &&& accounts@.len() >= BASE_ACCOUNT_COUNT
                &&& cursor.accounts() == accounts@
                &&& cursor.position() == BASE_ACCOUNT_COUNT
            },
            Err(e) => accounts@.len() < BASE_ACCOUNT_COUNT && e == DispatchError::MissingAccount,
        },
{
    let mut cursor = AccountCursor::new(accounts);
    let mut taken: usize = 0;
    while taken < BASE_ACCOUNT_COUNT
        invariant
            taken <= BASE_ACCOUNT_COUNT,
            cursor.accounts() == accounts@,
            cursor.position() == taken,
            taken <= accounts@.len(),
        decreases BASE_ACCOUNT_COUNT - taken,
    {
        match cursor.next_account() {
            Ok(_) => {},
            Err(e) => {
                return Err(e);
            },
        }
        taken = taken + 1;
    }
    Ok(cursor)
}

/// An invocation that has been dispatched: the payload was an `Execute`
/// instruction, the base accounts were present, and what is left of the
/// account array waits for the consumer.
pub struct Dispatched<'a> {
    /// The amount that the payload carries.
    pub amount: u64,
    /// The cursor at the first extra account.
    pub extra: AccountCursor<'a>,
}

/// What dispatching comes to, as far as errors go: a payload other than
/// `Execute` is refused whatever the accounts are; then an array without
/// the five base accounts is refused.
pub open spec fn dispatch_error(accounts: Seq<Account>, input: Seq<u8>) -> Option<DispatchError> {
    if !is_execute(input) {
        Some(DispatchError::UnrecognizedInstruction)
    } else if accounts.len() < BASE_ACCOUNT_COUNT {
        Some(DispatchError::MissingAccount)
    } else {
        None
    }
}

/// The dispatcher: takes an invocation from awaiting its instruction to
/// dispatched. Decodes the payload first; on `Execute` takes the five
/// base accounts and hands over the rest of the array, untouched, for the
/// consumer to walk.
pub fn dispatch<'a>(accounts: &'a [Account], input: &[u8]) -> (r: Result<
    Dispatched<'a>,
    DispatchError,
>)
    ensures
        match r {
            Ok(dispatched) => {
                &&& dispatch_error(accounts@, input@) is None
                &&& dispatched.amount == execute_amount(input@)
                &&& dispatched.extra.accounts() == accounts@
                &&& dispatched.extra.position() == BASE_ACCOUNT_COUNT
            },
            Err(e) => dispatch_error(accounts@, input@) == Some(e),
        },
{
    let amount = decode_execute(input)?;
    let extra = take_base_accounts(accounts)?;
    Ok(Dispatched { amount, extra })
}

/// Runs the hook over an account array: takes the five base accounts,
/// then counts the extra accounts.
pub fn process_transfer_hook(accounts: &[Account]) -> (r: Result<u8, DispatchError>)
    ensures
        r == hook_outcome(accounts@),
{
    let mut cursor = take_base_accounts(accounts)?;
    count_extra_accounts(&mut cursor)
}

} // verus!
