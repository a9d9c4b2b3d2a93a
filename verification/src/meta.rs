//! The extra-account-meta record and its fixed-size binary form.
//!
//! A record takes `RECORD_SIZE` bytes: one tag byte, thirty-two bytes of
//! address configuration, one byte for the signer flag and one for the
//! writable flag.

use vstd::prelude::*;

verus! {

/// A thirty-two byte account address.
pub type Address = [u8; 32];

/// Number of bytes in an address and in a record's address configuration.
pub const ADDRESS_SIZE: usize = 32;

/// Number of bytes taken by one encoded record.
pub const RECORD_SIZE: usize = 35;

/// Tag byte of a record that holds its address literally.
pub const TAG_LITERAL: u8 = 0;

/// Tag byte of a record that holds a derivation rule.
pub const TAG_DERIVED: u8 = 1;

/// How a record's address configuration is to be read.
#[derive(Clone, Copy, Debug, PartialEq, Eq)]
pub enum MetaKind {
    /// The configuration is the account's address.
    Literal,
    /// The configuration is a packed list of seeds from which the address
    /// is derived under the hook program.
    Derived,
}

/// Why bytes could not be read as records.
#[derive(Clone, Copy, Debug, PartialEq, Eq)]
pub enum DecodeError {
    /// A record's tag byte is none of the recognized tags.
    InvalidDiscriminator,
    /// Fewer bytes are present than the record, or the declared list,
    /// takes.
    TruncatedRecord,
}

/// One extra account that a hook needs: its address, or the rule that
/// derives it, and the privileges it is passed with.
#[derive(Clone, Copy, Debug, PartialEq, Eq)]
pub struct ExtraAccountMeta {
    pub kind: MetaKind,
    pub address_config: Address,
    pub is_signer: bool,
    pub is_writable: bool,
}

/// The mathematical value of an `ExtraAccountMeta`.
pub struct MetaView {
    pub kind: MetaKind,
    pub config: Seq<u8>,
    pub is_signer: bool,
    pub is_writable: bool,
}

impl MetaView {
    /// A record's configuration is exactly one address long.
    pub open spec fn wf(self) -> bool {
        self.config.len() == ADDRESS_SIZE
    }
}

impl View for ExtraAccountMeta {
    type V = MetaView;

    open spec fn view(&self) -> MetaView {
        MetaView {
            kind: self.kind,
            config: self.address_config@,
            is_signer: self.is_signer,
            is_writable: self.is_writable,
        }
    }
}

/// The tag byte that stands for `kind`.
pub open spec fn kind_tag(kind: MetaKind) -> u8 {
    match kind {
        MetaKind::Literal => TAG_LITERAL,
        MetaKind::Derived => TAG_DERIVED,
    }
}

/// The byte that stands for a flag.
pub open spec fn flag_byte(flag: bool) -> u8 {
    if flag {
        1
    } else {
        0
    }
}

/// The encoded form of a record.
pub open spec fn record_bytes(m: MetaView) -> Seq<u8> {
    seq![kind_tag(m.kind)] + m.config + seq![flag_byte(m.is_signer), flag_byte(m.is_writable)]
}

/// What the first `RECORD_SIZE` bytes of `b` decode to. A flag is set
/// when its byte is not zero.
pub open spec fn decode_record(b: Seq<u8>) -> Result<MetaView, DecodeError> {
    if b.len() < RECORD_SIZE {
        Err(DecodeError::TruncatedRecord)
    } else if b[0] != TAG_LITERAL && b[0] != TAG_DERIVED {
        Err(DecodeError::InvalidDiscriminator)
    } else {
        Ok(
            MetaView {
                kind: if b[0] == TAG_LITERAL {
                    MetaKind::Literal
                } else {
                    MetaKind::Derived
                },
                config: b.subrange(1, 33),
                is_signer: b[33] != 0,
                is_writable: b[34] != 0,
            },
        )
    }
}

/// An encoded record has the fixed size and decodes to the record it was
/// made from, whatever bytes follow it.
pub proof fn lemma_decode_record_bytes(m: MetaView, tail: Seq<u8>)
    requires
        m.wf(),
    ensures
        record_bytes(m).len() == RECORD_SIZE,
        decode_record(record_bytes(m) + tail) == Ok::<MetaView, DecodeError>(m),
{
    let b = record_bytes(m) + tail;
    assert(b.subrange(1, 33) =~= m.config);
}

impl ExtraAccountMeta {
    /// A record that names `address` itself.
    pub fn new_with_pubkey(address: &Address, is_signer: bool, is_writable: bool) -> (meta: Self)
        ensures
            meta@ == (MetaView {
                kind: MetaKind::Literal,
                config: address@,
                is_signer,
                is_writable,
            }),
    {
        ExtraAccountMeta {
            kind: MetaKind::Literal,
            address_config: *address,
            is_signer,
            is_writable,
        }
    }

    /// Encodes the record into its `RECORD_SIZE` bytes.
    pub fn encode(&self) -> (bytes: [u8; 35])
        ensures
            bytes@ == record_bytes(self@),
    {
        let mut bytes = [0u8; 35];
        bytes[0] = match self.kind {
            MetaKind::Literal => TAG_LITERAL,
            MetaKind::Derived => TAG_DERIVED,
        };
        let mut i: usize = 0;
        while i < 32
            invariant
                i <= 32,
                bytes@.len() == 35,
                bytes@[0] == kind_tag(self.kind),
                forall|j: int| 0 <= j < i ==> bytes@[1 + j] == self.address_config@[j],
            decreases 32 - i,
        {
            bytes[1 + i] = self.address_config[i];
            i += 1;
        }
        bytes[33] = if self.is_signer {
            1
        } else {
            0
        };
        bytes[34] = if self.is_writable {
            1
        } else {
            0
        };
        bytes
    }

    /// Decodes the record that starts at the head of `bytes`.
    pub fn decode(bytes: &[u8]) -> (r: Result<Self, DecodeError>)
        ensures
            match r {
                Ok(meta) => decode_record(bytes@) == Ok::<MetaView, DecodeError>(meta@),
                Err(e) => decode_record(bytes@) == Err::<MetaView, DecodeError>(e),
            },
    {
        if bytes.len() < RECORD_SIZE {
            return Err(DecodeError::TruncatedRecord);
        }
        let tag: u8 = bytes[0];
        if tag != TAG_LITERAL && tag != TAG_DERIVED {
            return Err(DecodeError::InvalidDiscriminator);
        }
        let mut address_config = [0u8; 32];
        let mut i: usize = 0;
        while i < 32
            invariant
                i <= 32,
                bytes@.len() >= 35,
                forall|j: int| 0 <= j < i ==> address_config@[j] == bytes@[1 + j],
            decreases 32 - i,
        {
            address_config[i] = bytes[1 + i];
            i += 1;
        }
        let meta = ExtraAccountMeta {
            kind: if tag == TAG_LITERAL {
                MetaKind::Literal
            } else {
                MetaKind::Derived
            },
            address_config,
            is_signer: bytes[33] != 0,
            is_writable: bytes[34] != 0,
        };
        assert(meta@.config =~= bytes@.subrange(1, 33));
        Ok(meta)
    }
}

} // verus!
