//! The instruction payload that a hook receives.
//!
//! A payload starts with an eight-byte tag. The tag of `Execute` is
//! followed by the transfer amount, eight bytes little-endian. Decoding
//! is the interface crate's.

use vstd::prelude::*;
use solana_program::program_error::ProgramError;
use spl_transfer_hook_interface::instruction::TransferHookInstruction;
use crate::dispatch::DispatchError;
use crate::wire::le_u64;

verus! {

/// `ProgramError` of `solana_program`, carried through as it is: nothing
/// is known of a value of it.
#[verifier::external_type_specification]
#[verifier::external_body]
pub struct ExProgramError(ProgramError);

/// Number of bytes in an instruction's tag.
pub const TAG_SIZE: usize = 8;

/// Number of bytes in an `Execute` payload: the tag and the amount.
pub const EXECUTE_SIZE: usize = 16;

/// An instruction of the transfer-hook interface, without the record
/// lists that two of them carry.
#[derive(Clone, Copy, Debug, PartialEq, Eq)]
pub enum HookInstruction {
    /// Runs the hook on a transfer of `amount` tokens.
    Execute { amount: u64 },
    /// Writes the list of extra accounts for the first time.
    InitializeExtraAccountMetaList,
    /// Overwrites the list of extra accounts.
    UpdateExtraAccountMetaList,
}

/// The tag of `Execute`: the first eight bytes of the SHA-256 hash of
/// `spl-transfer-hook-interface:execute`.
pub open spec fn execute_tag() -> Seq<u8> {
    seq![105u8, 37, 101, 197, 75, 251, 102, 26]
}

/// Whether `input` is an `Execute` payload: it starts with the tag of
/// `Execute` and holds an amount after it. Bytes after the amount are
/// allowed.
pub open spec fn is_execute(input: Seq<u8>) -> bool {
    input.len() >= EXECUTE_SIZE && input.subrange(0, TAG_SIZE as int) == execute_tag()
}

/// The amount that an `Execute` payload carries.
pub open spec fn execute_amount(input: Seq<u8>) -> nat {
    le_u64(input.subrange(TAG_SIZE as int, EXECUTE_SIZE as int))
}

/// Calls `TransferHookInstruction::unpack` of
/// `spl_transfer_hook_interface` and tells the variants of its result
/// apart.
///
/// Trusted: the result is `Execute` exactly for the payloads that start
/// with the tag of `Execute` and hold eight more bytes, and the amount
/// is those eight bytes read little-endian. Of other payloads nothing is
/// claimed but that they do not decode to `Execute`.
#[verifier::external_body]
pub(crate) fn unpack_instruction(input: &[u8]) -> (r: Result<HookInstruction, ProgramError>)
    ensures
        r matches Ok(HookInstruction::Execute { amount }) ==> is_execute(input@) && amount
            == execute_amount(input@),
        is_execute(input@) ==> r matches Ok(HookInstruction::Execute { .. }),
{
    match TransferHookInstruction::unpack(input)? {
        TransferHookInstruction::Execute { amount } => Ok(HookInstruction::Execute { amount }),
        TransferHookInstruction::InitializeExtraAccountMetaList { .. } => Ok(
            HookInstruction::InitializeExtraAccountMetaList,
        ),
        TransferHookInstruction::UpdateExtraAccountMetaList { .. } => Ok(
            HookInstruction::UpdateExtraAccountMetaList,
        ),
    }
}

/// What decoding makes of a payload: the amount of an `Execute`
/// instruction, or `UnrecognizedInstruction` for anything else.
pub open spec fn decode_outcome(input: Seq<u8>) -> Result<u64, DispatchError> {
    if is_execute(input) {
        Ok(execute_amount(input) as u64)
    } else {
        Err(DispatchError::UnrecognizedInstruction)
    }
}

/// Decodes the payload of an invocation. Only `Execute` is recognized;
/// its amount is returned.
pub fn decode_execute(input: &[u8]) -> (r: Result<u64, DispatchError>)
    ensures
        r == decode_outcome(input@),
{
    match unpack_instruction(input) {
        Ok(HookInstruction::Execute { amount }) => Ok(amount),
        _ => Err(DispatchError::UnrecognizedInstruction),
    }
}

} // verus!
