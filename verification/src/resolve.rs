//! Resolution of a list into the accounts to append to an instruction.
//!
//! Records are resolved in stored order. A literal record gives its
//! address as it is. A derivation rule gives the program-derived address
//! of its seeds under the hook program, where a seed that refers to an
//! account stands for the address of a base account or of an extra
//! account resolved before it. Nothing is removed or reordered: an
//! address that the list names twice is appended twice.

use vstd::prelude::*;
use vstd::slice::slice_to_vec;
use crate::list::ExtraAccountMetaList;
use crate::meta::Address;
use crate::meta::ExtraAccountMeta;
use crate::meta::MetaKind;
use crate::meta::MetaView;
use crate::pda::byte_strings;
use crate::pda::find_program_address;
use crate::pda::program_address;
use crate::seeds::parse_seeds;
use crate::seeds::seeds_view;
use crate::seeds::Seed;
use crate::seeds::SeedView;
use crate::validate::check_record;
use crate::validate::metas_view;
use crate::validate::seeds_in_reach;
use crate::validate::ResolveError;

verus! {

/// An account as an instruction names it: its address and the privileges
/// it is passed with.
#[derive(Clone, Copy, Debug, PartialEq, Eq)]
pub struct AccountMeta {
    pub pubkey: Address,
    pub is_signer: bool,
    pub is_writable: bool,
}

/// The mathematical value of an `AccountMeta`.
pub struct AccountMetaView {
    pub pubkey: Seq<u8>,
    pub is_signer: bool,
    pub is_writable: bool,
}

impl View for AccountMeta {
    type V = AccountMetaView;

    open spec fn view(&self) -> AccountMetaView {
        AccountMetaView {
            pubkey: self.pubkey@,
            is_signer: self.is_signer,
            is_writable: self.is_writable,
        }
    }
}

/// The values of a sequence of accounts.
pub open spec fn accounts_view(accounts: Seq<AccountMeta>) -> Seq<AccountMetaView> {
    Seq::new(accounts.len(), |i: int| accounts[i]@)
}

/// The addresses of a sequence of accounts.
pub open spec fn keys_of(accounts: Seq<AccountMetaView>) -> Seq<Seq<u8>> {
    Seq::new(accounts.len(), |i: int| accounts[i].pubkey)
}

/// The bytes that a seed contributes to a derivation, given the
/// addresses of the accounts placed so far.
pub open spec fn seed_value(seed: SeedView, known: Seq<Seq<u8>>) -> Seq<u8> {
    match seed {
        SeedView::Literal { bytes } => bytes,
        SeedView::AccountKey { index } => known[index as int],
    }
}

/// The bytes that each of `seeds` contributes, in order.
pub open spec fn seed_values(seeds: Seq<SeedView>, known: Seq<Seq<u8>>) -> Seq<Seq<u8>> {
    Seq::new(seeds.len(), |i: int| seed_value(seeds[i], known))
}

/// The account that a derivation's outcome gives: the derived address
/// with the record's privileges, or an error where nothing was derived.
pub open spec fn derived_account(
    derived: Option<(Seq<u8>, u8)>,
    is_signer: bool,
    is_writable: bool,
) -> Result<AccountMetaView, ResolveError> {
    match derived {
        Some((address, _)) => Ok(AccountMetaView { pubkey: address, is_signer, is_writable }),
        None => Err(ResolveError::UnresolvableDerivation),
    }
}

/// The account that one record resolves to when the accounts with the
/// addresses `known` are placed before it.
pub open spec fn resolve_record(program_id: Seq<u8>, known: Seq<Seq<u8>>, m: MetaView) -> Result<
    AccountMetaView,
    ResolveError,
> {
    match check_record(m, known.len()) {
        Err(e) => Err(e),
        Ok(()) => match m.kind {
            MetaKind::Literal => Ok(
                AccountMetaView {
                    pubkey: m.config,
                    is_signer: m.is_signer,
                    is_writable: m.is_writable,
                },
            ),
            MetaKind::Derived => derived_account(
                program_address(seed_values(parse_seeds(m.config, 0)->Some_0, known), program_id),
                m.is_signer,
                m.is_writable,
            ),
        },
    }
}

/// The accounts that the first `k` records of a list resolve to after
/// the base accounts with the addresses `base`, or the error of the
/// first record that fails.
pub open spec fn resolve_prefix(
    program_id: Seq<u8>,
    base: Seq<Seq<u8>>,
    metas: Seq<MetaView>,
    k: nat,
) -> Result<Seq<AccountMetaView>, ResolveError>
    decreases k,
{
    if k == 0 {
        Ok(Seq::<AccountMetaView>::empty())
    } else {
        match resolve_prefix(program_id, base, metas, (k - 1) as nat) {
            Err(e) => Err(e),
            Ok(placed) => match resolve_record(program_id, base + keys_of(placed), metas[k - 1]) {
                Err(e) => Err(e),
                Ok(account) => Ok(placed.push(account)),
            },
        }
    }
}

/// The extra accounts to append to an instruction that names `base`:
/// what the list's records resolve to, in stored order. Resolution is
/// refused before any record is read when base and extra accounts
/// together are more than `max_accounts`.
pub open spec fn resolve_spec(
    program_id: Seq<u8>,
    base: Seq<AccountMetaView>,
    metas: Seq<MetaView>,
    max_accounts: nat,
) -> Result<Seq<AccountMetaView>, ResolveError> {
    if base.len() + metas.len() > max_accounts {
        Err(ResolveError::ExceedsAccountCeiling)
    } else {
        resolve_prefix(program_id, keys_of(base), metas, metas.len())
    }
}

/// A prefix that resolves gives one account for each of its records.
pub proof fn lemma_resolve_prefix_len(
    program_id: Seq<u8>,
    base: Seq<Seq<u8>>,
    metas: Seq<MetaView>,
    k: nat,
)
    requires
        resolve_prefix(program_id, base, metas, k) is Ok,
    ensures
        resolve_prefix(program_id, base, metas, k)->Ok_0.len() == k,
    decreases k,
{
    if k > 0 {
        lemma_resolve_prefix_len(program_id, base, metas, (k - 1) as nat);
    }
}

/// Once a prefix of a list fails to resolve, every longer prefix fails
/// with the same error.
pub proof fn lemma_resolve_prefix_err(
    program_id: Seq<u8>,
    base: Seq<Seq<u8>>,
    metas: Seq<MetaView>,
    k: nat,
    n: nat,
)
    requires
        k <= n,
        resolve_prefix(program_id, base, metas, k) is Err,
    ensures
        resolve_prefix(program_id, base, metas, n) == resolve_prefix(program_id, base, metas, k),
    decreases n - k,
{
    if k < n {
        lemma_resolve_prefix_err(program_id, base, metas, k, (n - 1) as nat);
    }
}

/// Gives the account for the outcome of a derivation: the derived
/// address with the record's privileges, or `UnresolvableDerivation`
/// where nothing was derived.
pub fn account_from_derivation(
    derived: Option<(Address, u8)>,
    is_signer: bool,
    is_writable: bool,
) -> (r: Result<AccountMeta, ResolveError>)
    ensures
        match r {
            Ok(account) => derived matches Some((address, _)) && account@ == (AccountMetaView {
                pubkey: address@,
                is_signer,
                is_writable,
            }),
            Err(e) => derived is None && e == ResolveError::UnresolvableDerivation,
        },
{
    match derived {
        Some((address, _)) => Ok(AccountMeta { pubkey: address, is_signer, is_writable }),
        None => Err(ResolveError::UnresolvableDerivation),
    }
}

/// Collects the bytes that each of `seeds` contributes, or reports the
/// first seed that refers to an account not yet placed.
fn collect_seed_values(seeds: &[Seed], base_accounts: &[AccountMeta], placed: &[AccountMeta]) -> (r:
    Option<Vec<Vec<u8>>>)
    ensures
        match r {
            Some(values) => {
                &&& seeds_in_reach(seeds_view(seeds@), (base_accounts@.len() + placed@.len()) as nat)
                &&& byte_strings(values@) == seed_values(
                    seeds_view(seeds@),
                    keys_of(accounts_view(base_accounts@)) + keys_of(accounts_view(placed@)),
                )
            },
            None => !seeds_in_reach(
                seeds_view(seeds@),
                (base_accounts@.len() + placed@.len()) as nat,
            ),
        },
{
    let ghost known = keys_of(accounts_view(base_accounts@)) + keys_of(accounts_view(placed@));
    let ghost all = seeds_view(seeds@);
    let base_len: usize = base_accounts.len();
    let placed_len: usize = placed.len();
    let mut values: Vec<Vec<u8>> = Vec::new();
    let mut i: usize = 0;
    while i < seeds.len()
        invariant
            i <= seeds.len(),
            all == seeds_view(seeds@),
            base_len == base_accounts@.len(),
            placed_len == placed@.len(),
            known == keys_of(accounts_view(base_accounts@)) + keys_of(accounts_view(placed@)),
            values@.len() == i,
            forall|j: int|
                0 <= j < i ==> (#[trigger] all[j] matches SeedView::AccountKey { index } ==> index
                    < base_len + placed_len),
            forall|j: int| 0 <= j < i ==> (#[trigger] values@[j])@ == seed_value(all[j], known),
        decreases seeds.len() - i,
    {
        assert(all[i as int] == seeds[i as int]@);
        let value: Vec<u8> = match &seeds[i] {
            Seed::Literal { bytes } => slice_to_vec(bytes.as_slice()),
            Seed::AccountKey { index } => {
                let index: usize = *index as usize;
                if index < base_len {
                    slice_to_vec(base_accounts[index].pubkey.as_slice())
                } else if index - base_len < placed_len {
                    slice_to_vec(placed[index - base_len].pubkey.as_slice())
                } else {
                    return None;
                }
            },
        };
        values.push(value);
        i += 1;
    }
    Some(values)
}

/// Resolves one record, given the base accounts and the extra accounts
/// placed before it.
pub fn resolve_one(
    program_id: &Address,
    base_accounts: &[AccountMeta],
    placed: &[AccountMeta],
    meta: &ExtraAccountMeta,
) -> (r: Result<AccountMeta, ResolveError>)
    ensures
        match r {
            Ok(account) => resolve_record(
                program_id@,
                keys_of(accounts_view(base_accounts@)) + keys_of(accounts_view(placed@)),
                meta@,
            ) == Ok::<AccountMetaView, ResolveError>(account@),
            Err(e) => resolve_record(
                program_id@,
                keys_of(accounts_view(base_accounts@)) + keys_of(accounts_view(placed@)),
                meta@,
            ) == Err::<AccountMetaView, ResolveError>(e),
        },
{
    match meta.kind {
        MetaKind::Literal => Ok(
            AccountMeta {
                pubkey: meta.address_config,
                is_signer: meta.is_signer,
                is_writable: meta.is_writable,
            },
        ),
        MetaKind::Derived => {
            let seeds = match Seed::unpack_address_config(&meta.address_config) {
                Some(seeds) => seeds,
                None => {
                    return Err(ResolveError::UnresolvableDerivation);
                },
            };
            let values = match collect_seed_values(seeds.as_slice(), base_accounts, placed) {
                Some(values) => values,
                None => {
                    return Err(ResolveError::ForwardReference);
                },
            };
            let derived = find_program_address(&values, program_id);
            account_from_derivation(derived, meta.is_signer, meta.is_writable)
        },
    }
}

/// Resolves `list` for an instruction on the hook at `program_id` that
/// names `base_accounts`, and returns the extra accounts to append, in
/// the order of the list. At most `max_accounts` accounts, base and
/// extra together, are accepted.
pub fn resolve(
    program_id: &Address,
    base_accounts: &[AccountMeta],
    list: &ExtraAccountMetaList,
    max_accounts: usize,
) -> (r: Result<Vec<AccountMeta>, ResolveError>)
    ensures
        r matches Ok(extra) ==> extra@.len() == list@.len(),
        match r {
            Ok(extra) => resolve_spec(
                program_id@,
                accounts_view(base_accounts@),
                list@,
                max_accounts as nat,
            ) == Ok::<Seq<AccountMetaView>, ResolveError>(accounts_view(extra@)),
            Err(e) => resolve_spec(
                program_id@,
                accounts_view(base_accounts@),
                list@,
                max_accounts as nat,
            ) == Err::<Seq<AccountMetaView>, ResolveError>(e),
        },
{
    let metas = list.as_slice();
    let n: usize = metas.len();
    let base_len: usize = base_accounts.len();
    if base_len > max_accounts || n > max_accounts - base_len {
        return Err(ResolveError::ExceedsAccountCeiling);
    }
    let ghost base = keys_of(accounts_view(base_accounts@));
    let mut placed: Vec<AccountMeta> = Vec::new();
    let mut k: usize = 0;
    assert(accounts_view(placed@) =~= Seq::<AccountMetaView>::empty());
    while k < n
        invariant
            k <= n,
            n == metas@.len(),
            base_len == base_accounts@.len(),
            base_len + n <= max_accounts,
            list@ == metas_view(metas@),
            base == keys_of(accounts_view(base_accounts@)),
            placed@.len() == k,
            resolve_prefix(program_id@, base, list@, k as nat) == Ok::<
                Seq<AccountMetaView>,
                ResolveError,
            >(accounts_view(placed@)),
        decreases n - k,
    {
        let ghost before = accounts_view(placed@);
        match resolve_one(program_id, base_accounts, placed.as_slice(), &metas[k]) {
            Ok(account) => {
                placed.push(account);
                assert(accounts_view(placed@) =~= before.push(account@));
            },
            Err(e) => {
                proof {
                    lemma_resolve_prefix_err(program_id@, base, list@, (k + 1) as nat, n as nat);
                }
                return Err(e);
            },
        }
        k += 1;
    }
    Ok(placed)
}

} // verus!
