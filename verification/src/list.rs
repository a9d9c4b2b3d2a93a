//! The extra-account-meta list: a record count followed by fixed-size
//! records, as stored in the account that a hook dedicates to it.
//!
//! Layout: four bytes of record count, little-endian, then the records,
//! `RECORD_SIZE` bytes each. Bytes after the last record are not part of
//! the list.

use vstd::prelude::*;
use vstd::slice::slice_subrange;
use crate::meta::decode_record;
use crate::meta::lemma_decode_record_bytes;
use crate::meta::record_bytes;
use crate::meta::DecodeError;
use crate::meta::ExtraAccountMeta;
use crate::meta::MetaView;
use crate::meta::RECORD_SIZE;
use crate::validate::check_list;
use crate::validate::metas_view;
use crate::validate::validate;
use crate::validate::ResolveError;
use crate::validate::BASE_ACCOUNT_COUNT;
use crate::wire::le_u32;
use crate::wire::lemma_le_u32_of_u32_le;
use crate::wire::read_u32_le;
use crate::wire::u32_le;
use crate::wire::write_u32_le;

verus! {

/// Number of bytes taken by the record count at the head of a list.
pub const HEADER_SIZE: usize = 4;

/// Why a list could not be written.
#[derive(Clone, Copy, Debug, PartialEq, Eq)]
pub enum InitError {
    /// The buffer is shorter than the list.
    BufferTooSmall,
    /// A derivation rule refers to an account that is not placed before
    /// its own record.
    ForwardReference,
    /// A derivation rule's bytes are no packed list of seeds.
    UnresolvableDerivation,
}

/// Length in bytes of a list of `count` records.
pub open spec fn list_size(count: nat) -> nat {
    HEADER_SIZE as nat + count * RECORD_SIZE as nat
}

/// The encoded records of `metas`, one after another.
pub open spec fn records_bytes(metas: Seq<MetaView>) -> Seq<u8>
    decreases metas.len(),
{
    if metas.len() == 0 {
        Seq::<u8>::empty()
    } else {
        records_bytes(metas.drop_last()) + record_bytes(metas.last())
    }
}

/// The encoded form of a list: its record count, then its records.
pub open spec fn list_bytes(metas: Seq<MetaView>) -> Seq<u8> {
    u32_le(metas.len()) + records_bytes(metas)
}

/// Every record of `metas` has a configuration of one address.
pub open spec fn all_wf(metas: Seq<MetaView>) -> bool {
    forall|i: int| 0 <= i < metas.len() ==> (#[trigger] metas[i]).wf()
}

/// A list that can be written: its count fits the header, its records
/// are well formed, and it keeps the ordering rule after the base
/// accounts of an `Execute` invocation.
pub open spec fn valid_list(metas: Seq<MetaView>) -> bool {
    &&& metas.len() <= u32::MAX
    &&& all_wf(metas)
    &&& check_list(metas, BASE_ACCOUNT_COUNT as nat) is Ok
}

/// The error with which writing a list reports a broken ordering rule.
pub open spec fn init_error(e: ResolveError) -> InitError {
    match e {
        ResolveError::ForwardReference => InitError::ForwardReference,
        _ => InitError::UnresolvableDerivation,
    }
}

/// What writing `metas` into a buffer that holds `buffer` leaves in it:
/// the list, then the buffer's bytes after the list, unchanged.
pub open spec fn init_spec(buffer: Seq<u8>, metas: Seq<MetaView>) -> Result<Seq<u8>, InitError> {
    if buffer.len() < list_size(metas.len()) {
        Err(InitError::BufferTooSmall)
    } else {
        match check_list(metas, BASE_ACCOUNT_COUNT as nat) {
            Err(e) => Err(init_error(e)),
            Ok(()) => Ok(
                list_bytes(metas) + buffer.subrange(
                    list_size(metas.len()) as int,
                    buffer.len() as int,
                ),
            ),
        }
    }
}

/// The bytes of the record at position `i` of an encoded list.
pub open spec fn record_slot(b: Seq<u8>, i: int) -> Seq<u8> {
    b.subrange(HEADER_SIZE + i * RECORD_SIZE, HEADER_SIZE + i * RECORD_SIZE + RECORD_SIZE)
}

/// The list that `b` holds. The declared count is held against the
/// length of `b` before any record is read.
pub open spec fn unpack_spec(b: Seq<u8>) -> Result<Seq<MetaView>, DecodeError> {
    if b.len() < HEADER_SIZE || b.len() < list_size(le_u32(b)) {
        Err(DecodeError::TruncatedRecord)
    } else if exists|i: int| 0 <= i < le_u32(b) && #[trigger] decode_record(record_slot(b, i)) is Err {
        Err(DecodeError::InvalidDiscriminator)
    } else {
        Ok(Seq::new(le_u32(b), |i: int| decode_record(record_slot(b, i))->Ok_0))
    }
}

/// The encoded records take `RECORD_SIZE` bytes each, and the record at
/// position `i` stands at `i * RECORD_SIZE`.
pub proof fn lemma_records_bytes(metas: Seq<MetaView>)
    requires
        all_wf(metas),
    ensures
        records_bytes(metas).len() == metas.len() * RECORD_SIZE,
        forall|i: int|
            0 <= i < metas.len() ==> #[trigger] records_bytes(metas).subrange(
                i * RECORD_SIZE,
                i * RECORD_SIZE + RECORD_SIZE,
            ) == record_bytes(metas[i]),
    decreases metas.len(),
{
    if metas.len() > 0 {
        let front = metas.drop_last();
        lemma_records_bytes(front);
        lemma_decode_record_bytes(metas.last(), Seq::<u8>::empty());
        let all = records_bytes(metas);
        assert forall|i: int| 0 <= i < metas.len() implies #[trigger] all.subrange(
            i * RECORD_SIZE,
            i * RECORD_SIZE + RECORD_SIZE,
        ) == record_bytes(metas[i]) by {
            if i < front.len() {
                assert(all.subrange(i * RECORD_SIZE, i * RECORD_SIZE + RECORD_SIZE)
                    =~= records_bytes(front).subrange(
                    i * RECORD_SIZE,
                    i * RECORD_SIZE + RECORD_SIZE,
                ));
            }
        }
    }
}

/// An encoded list, whatever follows it, unpacks to the list it was made
/// from.
pub proof fn lemma_unpack_list_bytes(metas: Seq<MetaView>, tail: Seq<u8>)
    requires
        metas.len() <= u32::MAX,
        all_wf(metas),
    ensures
        list_bytes(metas).len() == list_size(metas.len()),
        unpack_spec(list_bytes(metas) + tail) == Ok::<Seq<MetaView>, DecodeError>(metas),
{
    let b = list_bytes(metas) + tail;
    let n = metas.len();
    lemma_records_bytes(metas);
    lemma_le_u32_of_u32_le(n);
    assert forall|i: int| 0 <= i < n implies #[trigger] decode_record(record_slot(b, i)) == Ok::<
        MetaView,
        DecodeError,
    >(metas[i]) by {
        assert(record_slot(b, i) =~= records_bytes(metas).subrange(
            i * RECORD_SIZE,
            i * RECORD_SIZE + RECORD_SIZE,
        ));
        lemma_decode_record_bytes(metas[i], Seq::<u8>::empty());
    }
    assert(unpack_spec(b)->Ok_0 =~= metas);
}

/// A list decoded from an account's bytes.
#[derive(Clone, Debug, PartialEq, Eq)]
pub struct ExtraAccountMetaList {
    metas: Vec<ExtraAccountMeta>,
}

impl View for ExtraAccountMetaList {
    type V = Seq<MetaView>;

    closed spec fn view(&self) -> Seq<MetaView> {
        metas_view(self.metas@)
    }
}

impl ExtraAccountMetaList {
    /// Computes the length in bytes of a list of `count` records, for
    /// sizing the account that is to hold it.
    pub fn size_of(count: usize) -> (size: usize)
        requires
            list_size(count as nat) <= usize::MAX,
        ensures
            size == list_size(count as nat),
    {
        HEADER_SIZE + count * RECORD_SIZE
    }

    /// Writes the list made of `metas` at the head of `buffer`. Nothing
    /// is written unless the buffer is long enough and the list keeps the
    /// ordering rule. What was written reads back as `metas`.
    pub fn init(buffer: &mut [u8], metas: &[ExtraAccountMeta]) -> (r: Result<(), InitError>)
        requires
            metas.len() <= u32::MAX,
        ensures
            match init_spec(old(buffer)@, metas_view(metas@)) {
                Ok(bytes) => r is Ok && final(buffer)@ == bytes,
                Err(e) => r == Err::<(), InitError>(e) && final(buffer)@ == old(buffer)@,
            },
            r is Ok ==> unpack_spec(final(buffer)@) == Ok::<Seq<MetaView>, DecodeError>(
                metas_view(metas@),
            ),
    {
        let ghost records = metas_view(metas@);
        let ghost before = buffer@;
        let n: usize = metas.len();
        let capacity: usize = buffer.len();
        if n > (usize::MAX - HEADER_SIZE) / RECORD_SIZE || capacity < HEADER_SIZE + n * RECORD_SIZE {
            return Err(InitError::BufferTooSmall);
        }
        match validate(metas, BASE_ACCOUNT_COUNT) {
            Ok(()) => {},
            Err(ResolveError::ForwardReference) => {
                return Err(InitError::ForwardReference);
            },
            Err(_) => {
                return Err(InitError::UnresolvableDerivation);
            },
        }
        write_u32_le(buffer, 0, n as u32);
        let mut k: usize = 0;
        while k < n
            invariant
                k <= n,
                n == metas.len(),
                n <= u32::MAX,
                records == metas_view(metas@),
                capacity == buffer.len(),
                before.len() == capacity,
                HEADER_SIZE + n * RECORD_SIZE <= capacity,
                records_bytes(records.take(k as int)).len() == k * RECORD_SIZE,
                buffer@ == u32_le(n as nat) + records_bytes(records.take(k as int))
                    + before.subrange(HEADER_SIZE + k * RECORD_SIZE, before.len() as int),
            decreases n - k,
        {
            let record = metas[k].encode();
            let start: usize = HEADER_SIZE + k * RECORD_SIZE;
            let ghost head = u32_le(n as nat) + records_bytes(records.take(k as int));
            let mut j: usize = 0;
            while j < RECORD_SIZE
                invariant
                    j <= RECORD_SIZE,
                    n <= u32::MAX,
                    capacity == buffer.len(),
                    before.len() == capacity,
                    start + RECORD_SIZE <= capacity,
                    head.len() == start,
                    record@.len() == RECORD_SIZE,
                    buffer@ == head + record@.take(j as int) + before.subrange(
                        start + j,
                        before.len() as int,
                    ),
                decreases RECORD_SIZE - j,
            {
                buffer[start + j] = record[j];
                j += 1;
            }
            assert(records.take(k + 1).drop_last() =~= records.take(k as int));
            k += 1;
        }
        assert(records.take(n as int) =~= records);
        proof {
            lemma_unpack_list_bytes(
                records,
                before.subrange(HEADER_SIZE + n * RECORD_SIZE, before.len() as int),
            );
        }
        Ok(())
    }

    /// Reads the list at the head of `buffer`.
    pub fn unpack(buffer: &[u8]) -> (r: Result<Self, DecodeError>)
        ensures
            match r {
                Ok(list) => unpack_spec(buffer@) == Ok::<Seq<MetaView>, DecodeError>(list@),
                Err(e) => unpack_spec(buffer@) == Err::<Seq<MetaView>, DecodeError>(e),
            },
    {
        let capacity: usize = buffer.len();
        if capacity < HEADER_SIZE {
            return Err(DecodeError::TruncatedRecord);
        }
        let n: usize = read_u32_le(buffer, 0) as usize;
        if n > (capacity - HEADER_SIZE) / RECORD_SIZE {
            return Err(DecodeError::TruncatedRecord);
        }
        let mut metas: Vec<ExtraAccountMeta> = Vec::new();
        let mut k: usize = 0;
        while k < n
            invariant
                k <= n,
                n == le_u32(buffer@),
                capacity == buffer.len(),
                HEADER_SIZE + n * RECORD_SIZE <= capacity,
                metas@.len() == k,
                forall|i: int|
                    0 <= i < k ==> #[trigger] decode_record(record_slot(buffer@, i)) == Ok::<
                        MetaView,
                        DecodeError,
                    >(metas@[i]@),
            decreases n - k,
        {
            let start: usize = HEADER_SIZE + k * RECORD_SIZE;
            match ExtraAccountMeta::decode(slice_subrange(buffer, start, start + RECORD_SIZE)) {
                Ok(meta) => {
                    metas.push(meta);
                },
                Err(e) => {
                    assert(decode_record(record_slot(buffer@, k as int)) is Err);
                    return Err(DecodeError::InvalidDiscriminator);
                },
            }
            k += 1;
        }
        let list = ExtraAccountMetaList { metas };
        assert(list@ =~= unpack_spec(buffer@)->Ok_0);
        Ok(list)
    }

    /// A list that holds `metas`.
    pub fn new(metas: Vec<ExtraAccountMeta>) -> (list: Self)
        ensures
            list@ == metas_view(metas@),
    {
        ExtraAccountMetaList { metas }
    }

    /// The records of the list, in stored order.
    pub fn as_slice(&self) -> (metas: &[ExtraAccountMeta])
        ensures
            metas_view(metas@) == self@,
    {
        self.metas.as_slice()
    }

    /// Number of records in the list.
    pub fn len(&self) -> (n: usize)
        ensures
            n == self@.len(),
    {
        self.metas.len()
    }

    /// The record at position `index`, if the list has one there.
    pub fn get(&self, index: usize) -> (r: Option<ExtraAccountMeta>)
        ensures
            match r {
                Some(meta) => index < self@.len() && meta@ == self@[index as int],
                None => index >= self@.len(),
            },
    {
        if index < self.metas.len() {
            Some(self.metas[index])
        } else {
            None
        }
    }
}

} // verus!
