use crypto::hashes::blake2b::Blake2b256;
use crypto::hashes::Digest;
use vstd::bytes::*;
use vstd::prelude::*;

use crate::codec::{lemma_occurs_join, lemma_occurs_split, occurs_at, write_u128, write_u16, read_u128};
use crate::error::Error;

verus! {

/// A 32-byte identifier, held as two little-endian halves.
#[derive(Debug, Clone, Copy, PartialEq, Eq, Hash, Structural)]
pub struct Id32 {
    pub lo: u128,
    pub hi: u128,
}

pub type AliasId = Id32;

pub type AccountId = Id32;

pub type NftId = Id32;

pub type TransactionId = Id32;

impl Id32 {
    pub open spec fn spec_pack(self) -> Seq<u8> {
        spec_u128_to_le_bytes(self.lo) + spec_u128_to_le_bytes(self.hi)
    }

    pub open spec fn spec_from_bytes(s: Seq<u8>) -> Id32 {
        Id32 {
            lo: spec_u128_from_le_bytes(s.subrange(0, 16)),
            hi: spec_u128_from_le_bytes(s.subrange(16, 32)),
        }
    }

    pub open spec fn spec_is_null(self) -> bool {
        self.lo == 0 && self.hi == 0
    }

    pub proof fn lemma_pack_len(self)
        ensures
            self.spec_pack().len() == 32,
    {
        lemma_auto_spec_u128_to_from_le_bytes();
    }

    /// The identifier of all zero bytes.
    pub fn null() -> (r: Id32)
        ensures
            r.spec_is_null(),
    {
        Id32 { lo: 0, hi: 0 }
    }

    pub fn is_null(&self) -> (r: bool)
        ensures
            r == self.spec_is_null(),
    {
        self.lo == 0 && self.hi == 0
    }

    /// Reads an identifier from its 32 bytes.
    pub fn from_bytes(s: &[u8]) -> (r: Id32)
        requires
            s@.len() == 32,
        ensures
            r == Id32::spec_from_bytes(s@),
            r.spec_pack() == s@,
    {
        proof { lemma_auto_spec_u128_to_from_le_bytes(); }
        let lo = u128_from_le_bytes(vstd::slice::slice_subrange(s, 0, 16));
        let hi = u128_from_le_bytes(vstd::slice::slice_subrange(s, 16, 32));
        let r = Id32 { lo, hi };
        assert(r.spec_pack() =~= s@);
        r
    }

    pub fn pack_into(&self, out: &mut Vec<u8>)
        ensures
            final(out)@ == old(out)@ + self.spec_pack(),
    {
        write_u128(out, self.lo);
        write_u128(out, self.hi);
        assert(final(out)@ =~= old(out)@ + self.spec_pack());
    }

    pub fn read(b: &[u8], pos: usize) -> (r: Result<(Id32, usize), Error>)
        ensures
            match r {
                Ok((x, p)) => p == pos + 32 && occurs_at(b@, pos as int, x.spec_pack()),
                Err(_) => true,
            },
            forall|y: Id32| #[trigger] occurs_at(b@, pos as int, y.spec_pack()) ==> r == Ok::<(Id32, usize), Error>((y, (pos + 32) as usize)),
    {
        proof { lemma_auto_spec_u128_to_from_le_bytes(); }
        let (lo, p) = match read_u128(b, pos) {
            Ok(v) => v,
            Err(e) => {
                proof {
                    assert forall|y: Id32| #[trigger] occurs_at(b@, pos as int, y.spec_pack()) implies false by {
                        lemma_occurs_split(b@, pos as int, spec_u128_to_le_bytes(y.lo), spec_u128_to_le_bytes(y.hi));
                    }
                }
                return Err(e);
            },
        };
        let (hi, p) = match read_u128(b, p) {
            Ok(v) => v,
            Err(e) => {
                proof {
                    assert forall|y: Id32| #[trigger] occurs_at(b@, pos as int, y.spec_pack()) implies false by {
                        lemma_occurs_split(b@, pos as int, spec_u128_to_le_bytes(y.lo), spec_u128_to_le_bytes(y.hi));
                    }
                }
                return Err(e);
            },
        };
        let r = Id32 { lo, hi };
        proof {
            lemma_occurs_join(b@, pos as int, spec_u128_to_le_bytes(lo), spec_u128_to_le_bytes(hi));
            assert forall|y: Id32| #[trigger] occurs_at(b@, pos as int, y.spec_pack()) implies y == r by {
                lemma_occurs_split(b@, pos as int, spec_u128_to_le_bytes(y.lo), spec_u128_to_le_bytes(y.hi));
            }
        }
        Ok((r, p))
    }
}

/// What BLAKE2b-256 gives for `data`.
pub uninterp spec fn blake2b256_of(data: Seq<u8>) -> Seq<u8>;

/// Relies on iota-crypto's `Blake2b256` (through `Digest::digest`): the 32-byte BLAKE2b-256
/// digest of the data.
#[verifier::external_body]
fn blake2b256(data: &[u8]) -> (r: Vec<u8>)
    ensures
        r@ == blake2b256_of(data@),
        r@.len() == 32,
{
    Blake2b256::digest(data).to_vec()
}

/// The identifier of an output: the transaction that created it and its index there.
#[derive(Debug, Clone, Copy, PartialEq, Eq, Hash, Structural)]
pub struct OutputId {
    pub transaction_id: TransactionId,
    pub index: u16,
}

impl OutputId {
    pub open spec fn spec_pack(self) -> Seq<u8> {
        self.transaction_id.spec_pack() + spec_u16_to_le_bytes(self.index)
    }

    pub fn new(transaction_id: TransactionId, index: u16) -> (r: OutputId)
        ensures
            r.transaction_id == transaction_id,
            r.index == index,
    {
        OutputId { transaction_id, index }
    }

    pub fn pack_to_vec(&self) -> (r: Vec<u8>)
        ensures
            r@ == self.spec_pack(),
    {
        let mut out: Vec<u8> = Vec::new();
        self.transaction_id.pack_into(&mut out);
        write_u16(&mut out, self.index);
        assert(out@ =~= self.spec_pack());
        out
    }

    /// The BLAKE2b-256 hash of the packed identifier.
    pub fn hash(&self) -> (r: Id32)
        ensures
            r == Id32::spec_from_bytes(blake2b256_of(self.spec_pack())),
    {
        let bytes = self.pack_to_vec();
        let digest = blake2b256(bytes.as_slice());
        Id32::from_bytes(digest.as_slice())
    }
}

/// The identifier of a delegation output: the hash of the output identifier that created it,
/// or null until that output has been included in the ledger.
#[derive(Debug, Clone, Copy, PartialEq, Eq, Hash, Structural)]
pub struct DelegationId(pub Id32);

impl DelegationId {
    pub open spec fn spec_from_output_id(output_id: OutputId) -> DelegationId {
        DelegationId(Id32::spec_from_bytes(blake2b256_of(output_id.spec_pack())))
    }

    pub fn null() -> (r: DelegationId)
        ensures
            r.0.spec_is_null(),
    {
        DelegationId(Id32::null())
    }

    pub fn is_null(&self) -> (r: bool)
        ensures
            r == self.0.spec_is_null(),
    {
        self.0.is_null()
    }

    /// The delegation identifier derived from the output identifier that created the output.
    pub fn from_output_id(output_id: &OutputId) -> (r: DelegationId)
        ensures
            r == DelegationId::spec_from_output_id(*output_id),
    {
        DelegationId(output_id.hash())
    }

    /// This identifier, or the one derived from `output_id` where this one is null.
    pub fn or_from_output_id(self, output_id: &OutputId) -> (r: DelegationId)
        ensures
            r == if self.0.spec_is_null() {
                DelegationId::spec_from_output_id(*output_id)
            } else {
                self
            },
    {
        if self.is_null() {
            DelegationId::from_output_id(output_id)
        } else {
            self
        }
    }
}

} // verus!
