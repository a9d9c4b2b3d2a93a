//! Laws that relate the parts of the protocol: what is written is what
//! is read, what was checked when a list was written does not fail for
//! that reason when it is resolved, and what resolution appends is what
//! the hook counts.

use vstd::prelude::*;
use crate::dispatch::count_outcome;
use crate::dispatch::hook_outcome;
use crate::dispatch::Account;
use crate::dispatch::DispatchError;
use crate::instruction::is_execute;
use crate::list::init_spec;
use crate::list::lemma_unpack_list_bytes;
use crate::list::list_size;
use crate::list::record_slot;
use crate::list::unpack_spec;
use crate::list::valid_list;
use crate::list::InitError;
use crate::meta::decode_record;
use crate::meta::DecodeError;
use crate::meta::MetaKind;
use crate::meta::MetaView;
use crate::process_outcome;
use crate::resolve::keys_of;
use crate::resolve::lemma_resolve_prefix_len;
use crate::resolve::resolve_prefix;
use crate::resolve::resolve_record;
use crate::resolve::resolve_spec;
use crate::resolve::AccountMetaView;
use crate::validate::check_prefix;
use crate::validate::check_record;
use crate::validate::ResolveError;
use crate::validate::BASE_ACCOUNT_COUNT;
use crate::wire::le_u32;

verus! {

/// Round trip: whenever a list is written into a buffer, reading the
/// buffer gives back that list, record for record.
pub proof fn lemma_unpack_after_init(buffer: Seq<u8>, metas: Seq<MetaView>)
    requires
        valid_list(metas),
        init_spec(buffer, metas) is Ok,
    ensures
        unpack_spec(init_spec(buffer, metas)->Ok_0) == Ok::<Seq<MetaView>, DecodeError>(metas),
{
    lemma_unpack_list_bytes(
        metas,
        buffer.subrange(list_size(metas.len()) as int, buffer.len() as int),
    );
}

/// Size law: writing a valid list fails exactly when the buffer is
/// shorter than the list's size, and then with `BufferTooSmall`; when it
/// succeeds the buffer keeps its length.
pub proof fn lemma_init_fails_iff_short(buffer: Seq<u8>, metas: Seq<MetaView>)
    requires
        valid_list(metas),
    ensures
        init_spec(buffer, metas) is Err <==> buffer.len() < list_size(metas.len()),
        init_spec(buffer, metas) is Err ==> init_spec(buffer, metas) == Err::<
            Seq<u8>,
            InitError,
        >(InitError::BufferTooSmall),
        init_spec(buffer, metas) is Ok ==> init_spec(buffer, metas)->Ok_0.len() == buffer.len(),
{
    if init_spec(buffer, metas) is Ok {
        lemma_unpack_list_bytes(metas, Seq::<u8>::empty());
    }
}

/// Whatever the list, writing it reports `BufferTooSmall` exactly when
/// the buffer is shorter than the list's size.
pub proof fn lemma_buffer_too_small_iff_short(buffer: Seq<u8>, metas: Seq<MetaView>)
    ensures
        init_spec(buffer, metas) == Err::<Seq<u8>, InitError>(InitError::BufferTooSmall)
            <==> buffer.len() < list_size(metas.len()),
{
}

/// Reading depends on the list's own bytes alone: two buffers that agree
/// on the header and on the records that the header declares hold the
/// same list, whatever stands after it.
pub proof fn lemma_unpack_ignores_tail(a: Seq<u8>, b: Seq<u8>)
    requires
        unpack_spec(a) is Ok,
        b.len() >= list_size(le_u32(a)),
        a.take(list_size(le_u32(a)) as int) == b.take(list_size(le_u32(a)) as int),
    ensures
        unpack_spec(b) == unpack_spec(a),
{
    let size = list_size(le_u32(a)) as int;
    assert(a[0] == a.take(size)[0] && a[1] == a.take(size)[1] && a[2] == a.take(size)[2] && a[3]
        == a.take(size)[3]);
    assert(b[0] == b.take(size)[0] && b[1] == b.take(size)[1] && b[2] == b.take(size)[2] && b[3]
        == b.take(size)[3]);
    assert(le_u32(a) == le_u32(b));
    assert forall|i: int| 0 <= i < le_u32(a) implies record_slot(a, i) == record_slot(b, i) by {
        assert(record_slot(a, i) =~= record_slot(a.take(size), i));
        assert(record_slot(b, i) =~= record_slot(b.take(size), i));
    }
    assert forall|i: int| 0 <= i < le_u32(b) implies !(#[trigger] decode_record(
        record_slot(b, i),
    ) is Err) by {
        assert(record_slot(a, i) == record_slot(b, i));
        assert(!(decode_record(record_slot(a, i)) is Err));
    }
    assert(unpack_spec(b)->Ok_0 =~= unpack_spec(a)->Ok_0);
}

/// Determinism: resolution is a function of the program, the base
/// accounts, the list and the ceiling. Two runs on the same inputs give
/// the same accounts in the same order, or the same error.
pub proof fn lemma_resolve_is_deterministic(
    program_id: Seq<u8>,
    base: Seq<AccountMetaView>,
    metas: Seq<MetaView>,
    max_accounts: nat,
    first: Result<Seq<AccountMetaView>, ResolveError>,
    second: Result<Seq<AccountMetaView>, ResolveError>,
)
    requires
        first == resolve_spec(program_id, base, metas, max_accounts),
        second == resolve_spec(program_id, base, metas, max_accounts),
    ensures
        first == second,
{
}

/// Ceiling: resolution fails with `ExceedsAccountCeiling` exactly when
/// the base accounts and the list's records together are more than the
/// ceiling; and where it succeeds it gives one account for each record,
/// none dropped.
pub proof fn lemma_resolve_ceiling(
    program_id: Seq<u8>,
    base: Seq<AccountMetaView>,
    metas: Seq<MetaView>,
    max_accounts: nat,
)
    ensures
        base.len() + metas.len() > max_accounts ==> resolve_spec(
            program_id,
            base,
            metas,
            max_accounts,
        ) == Err::<Seq<AccountMetaView>, ResolveError>(ResolveError::ExceedsAccountCeiling),
        resolve_spec(program_id, base, metas, max_accounts) matches Ok(extra) ==> extra.len()
            == metas.len() && base.len() + extra.len() <= max_accounts,
{
    if resolve_spec(program_id, base, metas, max_accounts) is Ok {
        lemma_resolve_prefix_len(program_id, keys_of(base), metas, metas.len());
    }
}

/// Ordering rule: the first `k` records of a list pass the check exactly
/// when each of them does at its own position, with the base accounts
/// and the records before it placed.
pub proof fn lemma_checked_iff_each_record(metas: Seq<MetaView>, base: nat, k: nat)
    ensures
        check_prefix(metas, base, k) is Ok <==> (forall|i: int|
            0 <= i < k ==> #[trigger] check_record(metas[i], (base + i) as nat) is Ok),
    decreases k,
{
    if k > 0 {
        lemma_checked_iff_each_record(metas, base, (k - 1) as nat);
    }
}

/// A prefix of a list that keeps the ordering rule after `base.len()`
/// base accounts never fails to resolve with `ForwardReference`, and
/// fails at all only where the platform derives no address.
pub proof fn lemma_checked_prefix_resolves(
    program_id: Seq<u8>,
    base: Seq<Seq<u8>>,
    metas: Seq<MetaView>,
    k: nat,
)
    requires
        check_prefix(metas, base.len(), k) is Ok,
    ensures
        resolve_prefix(program_id, base, metas, k) matches Err(e) ==> e
            == ResolveError::UnresolvableDerivation,
    decreases k,
{
    if k > 0 {
        lemma_checked_prefix_resolves(program_id, base, metas, (k - 1) as nat);
        let before = resolve_prefix(program_id, base, metas, (k - 1) as nat);
        if before is Ok {
            lemma_resolve_prefix_len(program_id, base, metas, (k - 1) as nat);
            let known = base + keys_of(before->Ok_0);
            assert(known.len() == base.len() + k - 1);
            assert(check_record(metas[k - 1], known.len()) is Ok);
        }
    }
}

/// A list that could be written resolves, after the five base accounts
/// of an `Execute` invocation and under a ceiling that admits it,
/// without `ForwardReference` and without `ExceedsAccountCeiling`.
pub proof fn lemma_valid_list_resolves(
    program_id: Seq<u8>,
    base: Seq<AccountMetaView>,
    metas: Seq<MetaView>,
    max_accounts: nat,
)
    requires
        valid_list(metas),
        base.len() == BASE_ACCOUNT_COUNT,
        base.len() + metas.len() <= max_accounts,
    ensures
        resolve_spec(program_id, base, metas, max_accounts) matches Err(e) ==> e
            == ResolveError::UnresolvableDerivation,
{
    lemma_checked_prefix_resolves(program_id, keys_of(base), metas, metas.len());
}

/// A list of literal addresses resolves to exactly those addresses with
/// their privileges, in stored order, whatever the program and the base
/// accounts are.
pub proof fn lemma_literal_prefix_resolves(
    program_id: Seq<u8>,
    base: Seq<Seq<u8>>,
    metas: Seq<MetaView>,
    k: nat,
)
    requires
        k <= metas.len(),
        forall|i: int| 0 <= i < k ==> (#[trigger] metas[i]).kind == MetaKind::Literal,
    ensures
        resolve_prefix(program_id, base, metas, k) == Ok::<Seq<AccountMetaView>, ResolveError>(
            Seq::new(
                k,
                |i: int|
                    AccountMetaView {
                        pubkey: metas[i].config,
                        is_signer: metas[i].is_signer,
                        is_writable: metas[i].is_writable,
                    },
            ),
        ),
    decreases k,
{
    if k > 0 {
        lemma_literal_prefix_resolves(program_id, base, metas, (k - 1) as nat);
        let before = resolve_prefix(program_id, base, metas, (k - 1) as nat)->Ok_0;
        let known = base + keys_of(before);
        assert(metas[k - 1].kind == MetaKind::Literal);
        assert(resolve_record(program_id, known, metas[k - 1]) is Ok);
        assert(resolve_prefix(program_id, base, metas, k)->Ok_0 =~= Seq::new(
            k,
            |i: int|
                AccountMetaView {
                    pubkey: metas[i].config,
                    is_signer: metas[i].is_signer,
                    is_writable: metas[i].is_writable,
                },
        ));
    } else {
        assert(Seq::<AccountMetaView>::empty() =~= Seq::new(
            0,
            |i: int|
                AccountMetaView {
                    pubkey: metas[i].config,
                    is_signer: metas[i].is_signer,
                    is_writable: metas[i].is_writable,
                },
        ));
    }
}

/// Dispatch rejection: a payload that is no `Execute` instruction is
/// refused with `UnrecognizedInstruction`, whatever the account array
/// holds.
pub proof fn lemma_unrecognized_whatever_accounts(accounts: Seq<Account>, input: Seq<u8>)
    requires
        !is_execute(input),
    ensures
        process_outcome(accounts, input) == Err::<u8, DispatchError>(
            DispatchError::UnrecognizedInstruction,
        ),
{
}

/// Missing account: where the counter declares `n` extra accounts and
/// the array holds fewer than the five base accounts and those `n`, the
/// hook fails with `MissingAccount`; so it does where the array does not
/// reach the counter.
pub proof fn lemma_short_array_is_missing_account(accounts: Seq<Account>)
    requires
        accounts.len() <= BASE_ACCOUNT_COUNT || (accounts[BASE_ACCOUNT_COUNT as int].data@.len() > 0
            && accounts.len() < BASE_ACCOUNT_COUNT
            + accounts[BASE_ACCOUNT_COUNT as int].data@[0]),
    ensures
        hook_outcome(accounts) == Err::<u8, DispatchError>(DispatchError::MissingAccount),
{
}

/// Agreement of the two sides: an array made of the five base accounts
/// and `n` extra accounts, the first of which is a counter that declares
/// `n`, is accepted, and the hook counts exactly `n`.
pub proof fn lemma_declared_count_is_observed(accounts: Seq<Account>, n: u8)
    requires
        n >= 1,
        accounts.len() == BASE_ACCOUNT_COUNT + n,
        accounts[BASE_ACCOUNT_COUNT as int].data@.len() > 0,
        accounts[BASE_ACCOUNT_COUNT as int].data@[0] == n,
    ensures
        hook_outcome(accounts) == Ok::<u8, DispatchError>(n),
        count_outcome(accounts, BASE_ACCOUNT_COUNT as nat) == Ok::<u8, DispatchError>(n),
{
}

} // verus!
