//! Seeds of a derivation rule and their packed form.
//!
//! A rule's seeds are packed one after another into the thirty-two bytes
//! of a record's address configuration. A literal seed takes a tag byte,
//! a length byte and its bytes; a reference to an account's address takes
//! a tag byte and the account's index. A zero tag, or the end of the
//! configuration, ends the list. Any other tag makes the configuration
//! unreadable.

use vstd::prelude::*;
use vstd::slice::slice_subrange;
use vstd::slice::slice_to_vec;
use crate::meta::Address;
use crate::meta::ExtraAccountMeta;
use crate::meta::MetaKind;
use crate::meta::MetaView;

verus! {

/// Tag byte that ends a packed list of seeds.
pub const SEED_END: u8 = 0;

/// Tag byte of a literal seed.
pub const SEED_LITERAL: u8 = 1;

/// Tag byte of a seed that refers to an account's address.
pub const SEED_ACCOUNT_KEY: u8 = 3;

/// One component of a derivation rule.
#[derive(Clone, Debug, PartialEq, Eq)]
pub enum Seed {
    /// The bytes themselves.
    Literal { bytes: Vec<u8> },
    /// The address of the account at `index` of the instruction's account
    /// array: a base account, or an extra account placed earlier.
    AccountKey { index: u8 },
}

/// The mathematical value of a `Seed`.
pub enum SeedView {
    Literal { bytes: Seq<u8> },
    AccountKey { index: u8 },
}

impl View for Seed {
    type V = SeedView;

    open spec fn view(&self) -> SeedView {
        match self {
            Seed::Literal { bytes } => SeedView::Literal { bytes: bytes@ },
            Seed::AccountKey { index } => SeedView::AccountKey { index: *index },
        }
    }
}

/// The values of a sequence of seeds.
pub open spec fn seeds_view(seeds: Seq<Seed>) -> Seq<SeedView> {
    Seq::new(seeds.len(), |i: int| seeds[i]@)
}

/// The packed form of one seed.
pub open spec fn seed_bytes(seed: SeedView) -> Seq<u8> {
    match seed {
        SeedView::Literal { bytes } => seq![SEED_LITERAL, bytes.len() as u8] + bytes,
        SeedView::AccountKey { index } => seq![SEED_ACCOUNT_KEY, index],
    }
}

/// The packed forms of `seeds`, one after another.
pub open spec fn packed_seeds(seeds: Seq<SeedView>) -> Seq<u8>
    decreases seeds.len(),
{
    if seeds.len() == 0 {
        Seq::<u8>::empty()
    } else {
        seed_bytes(seeds.first()) + packed_seeds(seeds.drop_first())
    }
}

/// The address configuration that holds `seeds`: their packed forms,
/// then zeros up to thirty-two bytes. There is none when the packed forms
/// take more than thirty-two bytes.
pub open spec fn seeds_config(seeds: Seq<SeedView>) -> Option<Seq<u8>> {
    let packed = packed_seeds(seeds);
    if packed.len() <= 32 {
        Some(packed + Seq::new((32 - packed.len()) as nat, |i: int| 0u8))
    } else {
        None
    }
}

/// What `acc` followed by a parsed remainder amounts to.
pub open spec fn seeds_then(acc: Seq<SeedView>, rest: Option<Seq<SeedView>>) -> Option<
    Seq<SeedView>,
> {
    match rest {
        Some(rest) => Some(acc + rest),
        None => None,
    }
}

/// The seeds packed in `config` from position `at` on, or `None` when the
/// bytes there are no packed list of seeds: a tag is unknown, or a seed
/// runs past the end.
pub open spec fn parse_seeds(config: Seq<u8>, at: int) -> Option<Seq<SeedView>>
    decreases config.len() - at,
{
    if at < 0 || at >= config.len() {
        Some(Seq::<SeedView>::empty())
    } else if config[at] == SEED_END {
        Some(Seq::<SeedView>::empty())
    } else if config[at] == SEED_LITERAL {
        if at + 1 >= config.len() {
            None
        } else {
            let len = config[at + 1] as int;
            if at + 2 + len > config.len() {
                None
            } else {
                seeds_then(
                    seq![SeedView::Literal { bytes: config.subrange(at + 2, at + 2 + len) }],
                    parse_seeds(config, at + 2 + len),
                )
            }
        }
    } else if config[at] == SEED_ACCOUNT_KEY {
        if at + 1 >= config.len() {
            None
        } else {
            seeds_then(
                seq![SeedView::AccountKey { index: config[at + 1] }],
                parse_seeds(config, at + 2),
            )
        }
    } else {
        None
    }
}

/// Packing seeds one after another is packing the first ones, then the
/// last.
pub proof fn lemma_packed_seeds_push(seeds: Seq<SeedView>, seed: SeedView)
    ensures
        packed_seeds(seeds.push(seed)) == packed_seeds(seeds) + seed_bytes(seed),
    decreases seeds.len(),
{
    if seeds.len() == 0 {
        assert(seeds.push(seed).drop_first() =~= seeds);
    } else {
        lemma_packed_seeds_push(seeds.drop_first(), seed);
        assert(seeds.push(seed).drop_first() =~= seeds.drop_first().push(seed));
    }
}

/// The packed form of the first seeds is a prefix of the packed form of
/// all of them, so it is no longer.
pub proof fn lemma_packed_seeds_prefix(seeds: Seq<SeedView>, k: int)
    requires
        0 <= k <= seeds.len(),
    ensures
        packed_seeds(seeds.take(k)).len() <= packed_seeds(seeds).len(),
    decreases seeds.len() - k,
{
    if k < seeds.len() {
        lemma_packed_seeds_push(seeds.take(k), seeds[k]);
        assert(seeds.take(k + 1) =~= seeds.take(k).push(seeds[k]));
        lemma_packed_seeds_prefix(seeds, k + 1);
    } else {
        assert(seeds.take(k) =~= seeds);
    }
}

/// Where `config` holds the packed forms of `seeds` from `at` on and
/// only zeros after them, parsing from `at` gives back `seeds`.
pub proof fn lemma_parse_packed(config: Seq<u8>, at: int, seeds: Seq<SeedView>)
    requires
        0 <= at,
        at + packed_seeds(seeds).len() <= config.len(),
        config.subrange(at, at + packed_seeds(seeds).len()) == packed_seeds(seeds),
        forall|i: int| at + packed_seeds(seeds).len() <= i < config.len() ==> config[i] == 0,
        config.len() <= 255,
    ensures
        parse_seeds(config, at) == Some(seeds),
    decreases seeds.len(),
{
    let packed = packed_seeds(seeds);
    if seeds.len() > 0 {
        let head = seed_bytes(seeds.first());
        let rest = seeds.drop_first();
        let next = at + head.len();
        assert forall|i: int| 0 <= i < packed.len() implies config[at + i] == packed[i] by {
        }
        assert(config.subrange(next, next + packed_seeds(rest).len()) =~= packed_seeds(
            rest,
        )) by {
            assert forall|i: int| 0 <= i < packed_seeds(rest).len() implies config[next + i]
                == packed_seeds(rest)[i] by {
                assert(packed[head.len() + i] == packed_seeds(rest)[i]);
            }
        }
        lemma_parse_packed(config, next, rest);
        match seeds.first() {
            SeedView::Literal { bytes } => {
                assert(config[at] == packed[0]);
                assert(config[at + 1] == packed[1]);
                assert(config.subrange(at + 2, at + 2 + bytes.len()) =~= bytes) by {
                    assert forall|i: int| 0 <= i < bytes.len() implies config[at + 2 + i]
                        == bytes[i] by {
                        assert(packed[2 + i] == bytes[i]);
                    }
                }
            },
            SeedView::AccountKey { index } => {
                assert(config[at] == packed[0]);
                assert(config[at + 1] == packed[1]);
            },
        }
    }
}

/// A configuration made from seeds parses back to those seeds.
pub proof fn lemma_parse_seeds_config(seeds: Seq<SeedView>)
    requires
        seeds_config(seeds) is Some,
    ensures
        seeds_config(seeds)->Some_0.len() == 32,
        parse_seeds(seeds_config(seeds)->Some_0, 0) == Some(seeds),
{
    let config = seeds_config(seeds)->Some_0;
    assert(config.subrange(0, packed_seeds(seeds).len() as int) =~= packed_seeds(seeds));
    lemma_parse_packed(config, 0, seeds);
}

impl Seed {
    /// Packs `seeds` into an address configuration, or returns `None`
    /// when they take more than thirty-two bytes.
    pub fn pack_into_address_config(seeds: &[Seed]) -> (r: Option<Address>)
        ensures
            match r {
                Some(config) => seeds_config(seeds_view(seeds@)) == Some(config@),
                None => seeds_config(seeds_view(seeds@)) is None,
            },
    {
        let ghost all = seeds_view(seeds@);
        let mut config = [0u8; 32];
        let mut used: usize = 0;
        let mut k: usize = 0;
        while k < seeds.len()
            invariant
                k <= seeds.len(),
                used <= 32,
                all == seeds_view(seeds@),
                used == packed_seeds(all.take(k as int)).len(),
                config@.subrange(0, used as int) == packed_seeds(all.take(k as int)),
                forall|i: int| used <= i < 32 ==> config@[i] == 0,
            decreases seeds.len() - k,
        {
            let ghost before = all.take(k as int);
            proof {
                lemma_packed_seeds_push(before, all[k as int]);
                assert(all.take(k + 1) =~= before.push(all[k as int]));
                lemma_packed_seeds_prefix(all, k + 1);
            }
            let ghost old_config = config@;
            match &seeds[k] {
                Seed::Literal { bytes } => {
                    if bytes.len() > 30 || used + 2 + bytes.len() > 32 {
                        return None;
                    }
                    config[used] = SEED_LITERAL;
                    config[used + 1] = bytes.len() as u8;
                    let mut j: usize = 0;
                    while j < bytes.len()
                        invariant
                            j <= bytes.len(),
                            used + 2 + bytes.len() <= 32,
                            config@.subrange(0, used as int) == old_config.subrange(
                                0,
                                used as int,
                            ),
                            config@[used as int] == SEED_LITERAL,
                            config@[used + 1] == bytes.len() as u8,
                            forall|i: int| 0 <= i < j ==> config@[used + 2 + i] == bytes@[i],
                            forall|i: int| used + 2 + j <= i < 32 ==> config@[i] == 0,
                        decreases bytes.len() - j,
                    {
                        config[used + 2 + j] = bytes[j];
                        j += 1;
                    }
                    used = used + 2 + bytes.len();
                },
                Seed::AccountKey { index } => {
                    if used + 2 > 32 {
                        return None;
                    }
                    config[used] = SEED_ACCOUNT_KEY;
                    config[used + 1] = *index;
                    used = used + 2;
                },
            }
            k += 1;
        }
        assert(all.take(k as int) =~= all);
        Some(config)
    }

    /// Reads the seeds packed in `config`, or returns `None` when the
    /// bytes are no packed list of seeds.
    pub fn unpack_address_config(config: &Address) -> (r: Option<Vec<Seed>>)
        ensures
            match r {
                Some(seeds) => parse_seeds(config@, 0) == Some(seeds_view(seeds@)),
                None => parse_seeds(config@, 0) is None,
            },
    {
        let mut seeds: Vec<Seed> = Vec::new();
        let mut at: usize = 0;
        while at < 32
            invariant
                at <= 32,
                config@.len() == 32,
                parse_seeds(config@, 0) == seeds_then(
                    seeds_view(seeds@),
                    parse_seeds(config@, at as int),
                ),
            decreases 32 - at,
        {
            let tag: u8 = config[at];
            if tag == SEED_END {
                return Some(seeds);
            } else if tag == SEED_LITERAL {
                if at + 1 >= 32 {
                    return None;
                }
                let len: usize = config[at + 1] as usize;
                if at + 2 + len > 32 {
                    return None;
                }
                let bytes = slice_to_vec(slice_subrange(config.as_slice(), at + 2, at + 2 + len));
                let seed = Seed::Literal { bytes };
                seeds.push(seed);
                at = at + 2 + len;
            } else if tag == SEED_ACCOUNT_KEY {
                if at + 1 >= 32 {
                    return None;
                }
                let seed = Seed::AccountKey { index: config[at + 1] };
                seeds.push(seed);
                at = at + 2;
            } else {
                return None;
            }
        }
        Some(seeds)
    }
}

impl ExtraAccountMeta {
    /// A record that holds a derivation rule made of `seeds`, or `None`
    /// when the seeds take more than thirty-two bytes packed.
    pub fn new_with_seeds(seeds: &[Seed], is_signer: bool, is_writable: bool) -> (r: Option<Self>)
        ensures
            match r {
                Some(meta) => seeds_config(seeds_view(seeds@)) == Some(meta@.config) && meta@ == (
                MetaView {
                    kind: MetaKind::Derived,
                    config: meta@.config,
                    is_signer,
                    is_writable,
                }),
                None => seeds_config(seeds_view(seeds@)) is None,
            },
    {
        match Seed::pack_into_address_config(seeds) {
            Some(address_config) => Some(
                ExtraAccountMeta { kind: MetaKind::Derived, address_config, is_signer, is_writable },
            ),
            None => None,
        }
    }
}

} // verus!
