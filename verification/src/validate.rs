//! The ordering rule of a list: a derivation rule may refer only to
//! accounts placed before its own record.
//!
//! The account array of an invocation holds the base accounts first and
//! the extra accounts after them, in list order. The record at position
//! `k` of a list is resolved when `base + k` accounts are known, so an
//! account-key seed in it must have an index below `base + k`.

use vstd::prelude::*;
use crate::meta::ExtraAccountMeta;
use crate::meta::MetaKind;
use crate::meta::MetaView;
use crate::seeds::parse_seeds;
use crate::seeds::seeds_view;
use crate::seeds::Seed;
use crate::seeds::SeedView;

verus! {

/// Number of base accounts of an `Execute` invocation: source, mint,
/// destination, owner, and the account that stores the list.
pub const BASE_ACCOUNT_COUNT: usize = 5;

/// Why a list could not be resolved.
#[derive(Clone, Copy, Debug, PartialEq, Eq)]
pub enum ResolveError {
    /// A derivation rule refers to an account that is not placed before
    /// its own record.
    ForwardReference,
    /// A derivation rule's bytes are no packed list of seeds, or no
    /// address can be derived from its seeds.
    UnresolvableDerivation,
    /// The base accounts and the list together hold more accounts than an
    /// invocation may refer to.
    ExceedsAccountCeiling,
}

/// The values of a sequence of records.
pub open spec fn metas_view(metas: Seq<ExtraAccountMeta>) -> Seq<MetaView> {
    Seq::new(metas.len(), |i: int| metas[i]@)
}

/// Every account-key seed among `seeds` refers to one of the first
/// `known` accounts.
pub open spec fn seeds_in_reach(seeds: Seq<SeedView>, known: nat) -> bool {
    forall|i: int|
        0 <= i < seeds.len() ==> (#[trigger] seeds[i] matches SeedView::AccountKey { index }
            ==> index < known)
}

/// Whether a record can be resolved when `known` accounts are placed, as
/// far as its own bytes tell.
pub open spec fn check_record(m: MetaView, known: nat) -> Result<(), ResolveError> {
    match m.kind {
        MetaKind::Literal => Ok(()),
        MetaKind::Derived => match parse_seeds(m.config, 0) {
            None => Err(ResolveError::UnresolvableDerivation),
            Some(seeds) => if seeds_in_reach(seeds, known) {
                Ok(())
            } else {
                Err(ResolveError::ForwardReference)
            },
        },
    }
}

/// The check of the first `k` records of a list that follows `base` base
/// accounts: the error of the first record that fails, if one does.
pub open spec fn check_prefix(metas: Seq<MetaView>, base: nat, k: nat) -> Result<
    (),
    ResolveError,
>
    decreases k,
{
    if k == 0 {
        Ok(())
    } else {
        match check_prefix(metas, base, (k - 1) as nat) {
            Err(e) => Err(e),
            Ok(()) => check_record(metas[k - 1], (base + k - 1) as nat),
        }
    }
}

/// The check of a whole list that follows `base` base accounts.
pub open spec fn check_list(metas: Seq<MetaView>, base: nat) -> Result<(), ResolveError> {
    check_prefix(metas, base, metas.len())
}

/// Once a prefix of a list fails the check, every longer prefix fails
/// with the same error.
pub proof fn lemma_check_prefix_err(metas: Seq<MetaView>, base: nat, k: nat, n: nat)
    requires
        k <= n,
        check_prefix(metas, base, k) is Err,
    ensures
        check_prefix(metas, base, n) == check_prefix(metas, base, k),
    decreases n - k,
{
    if k < n {
        lemma_check_prefix_err(metas, base, k, (n - 1) as nat);
    }
}

/// Checks that every account-key seed among `seeds` refers to one of the
/// first `base + position` accounts.
pub fn seeds_reach(seeds: &[Seed], base: usize, position: usize) -> (ok: bool)
    ensures
        ok == seeds_in_reach(seeds_view(seeds@), (base + position) as nat),
{
    let mut i: usize = 0;
    while i < seeds.len()
        invariant
            i <= seeds.len(),
            forall|j: int|
                0 <= j < i ==> (#[trigger] seeds_view(seeds@)[j] matches SeedView::AccountKey {
                    index,
                } ==> index < base + position),
        decreases seeds.len() - i,
    {
        match &seeds[i] {
            Seed::AccountKey { index } => {
                let index: usize = *index as usize;
                if index >= base && index - base >= position {
                    assert(seeds_view(seeds@)[i as int] == seeds[i as int]@);
                    return false;
                }
            },
            Seed::Literal { .. } => {},
        }
        i += 1;
    }
    true
}

/// Checks one record at `position` of a list that follows `base` base
/// accounts.
pub fn validate_record(meta: &ExtraAccountMeta, base: usize, position: usize) -> (r: Result<
    (),
    ResolveError,
>)
    ensures
        r == check_record(meta@, (base + position) as nat),
{
    match meta.kind {
        MetaKind::Literal => Ok(()),
        MetaKind::Derived => match Seed::unpack_address_config(&meta.address_config) {
            None => Err(ResolveError::UnresolvableDerivation),
            Some(seeds) => if seeds_reach(seeds.as_slice(), base, position) {
                Ok(())
            } else {
                Err(ResolveError::ForwardReference)
            },
        },
    }
}

/// Checks the ordering rule on a whole list that follows `base` base
/// accounts, and returns the error of the first record that breaks it.
pub fn validate(metas: &[ExtraAccountMeta], base: usize) -> (r: Result<(), ResolveError>)
    ensures
        r == check_list(metas_view(metas@), base as nat),
{
    let ghost records = metas_view(metas@);
    let mut k: usize = 0;
    while k < metas.len()
        invariant
            k <= metas.len(),
            records == metas_view(metas@),
            check_prefix(records, base as nat, k as nat) is Ok,
        decreases metas.len() - k,
    {
        match validate_record(&metas[k], base, k) {
            Ok(()) => {},
            Err(e) => {
                proof {
                    lemma_check_prefix_err(records, base as nat, (k + 1) as nat, records.len());
                }
                return Err(e);
            },
        }
        k += 1;
    }
    Ok(())
}

} // verus!
