use vstd::prelude::*;

use crate::codec::{lemma_occurs_join, lemma_occurs_split, occurs_at, read_u8};
use crate::error::Error;
use crate::ids::{AliasId, Id32, NftId};

verus! {

pub const ED25519_ADDRESS_KIND: u8 = 0;

pub const ALIAS_ADDRESS_KIND: u8 = 8;

pub const NFT_ADDRESS_KIND: u8 = 16;

/// An address that can own outputs.
#[derive(Debug, Clone, Copy, PartialEq, Eq, Hash, Structural)]
pub enum Address {
    /// The hash of an Ed25519 public key.
    Ed25519(Id32),
    Alias(AliasId),
    Nft(NftId),
}

impl Address {
    pub open spec fn spec_kind(self) -> u8 {
        match self {
            Address::Ed25519(_) => ED25519_ADDRESS_KIND,
            Address::Alias(_) => ALIAS_ADDRESS_KIND,
            Address::Nft(_) => NFT_ADDRESS_KIND,
        }
    }

    pub open spec fn spec_id(self) -> Id32 {
        match self {
            Address::Ed25519(id) => id,
            Address::Alias(id) => id,
            Address::Nft(id) => id,
        }
    }

    /// The kind byte, then the 32 bytes of the identifier.
    pub open spec fn spec_pack(self) -> Seq<u8> {
        seq![self.spec_kind()] + self.spec_id().spec_pack()
    }

    pub proof fn lemma_pack_len(self)
        ensures
            self.spec_pack().len() == 33,
    {
        self.spec_id().lemma_pack_len();
    }

    pub fn kind(&self) -> (r: u8)
        ensures
            r == self.spec_kind(),
    {
        match self {
            Address::Ed25519(_) => ED25519_ADDRESS_KIND,
            Address::Alias(_) => ALIAS_ADDRESS_KIND,
            Address::Nft(_) => NFT_ADDRESS_KIND,
        }
    }

    pub fn id(&self) -> (r: Id32)
        ensures
            r == self.spec_id(),
    {
        match self {
            Address::Ed25519(id) => *id,
            Address::Alias(id) => *id,
            Address::Nft(id) => *id,
        }
    }

    pub fn pack_into(&self, out: &mut Vec<u8>)
        ensures
            final(out)@ == old(out)@ + self.spec_pack(),
    {
        out.push(self.kind());
        self.id().pack_into(out);
        assert(final(out)@ =~= old(out)@ + self.spec_pack());
    }

    pub fn read(b: &[u8], pos: usize) -> (r: Result<(Address, usize), Error>)
        ensures
            match r {
                Ok((x, p)) => p == pos + 33 && occurs_at(b@, pos as int, x.spec_pack()),
                Err(_) => true,
            },
            forall|y: Address| #[trigger] occurs_at(b@, pos as int, y.spec_pack()) ==> r == Ok::<(Address, usize), Error>((y, (pos + 33) as usize)),
    {
        let (k, p) = match read_u8(b, pos) {
            Ok(v) => v,
            Err(e) => {
                proof {
                    assert forall|y: Address| #[trigger] occurs_at(b@, pos as int, y.spec_pack()) implies false by {
                        lemma_occurs_split(b@, pos as int, seq![y.spec_kind()], y.spec_id().spec_pack());
                    }
                }
                return Err(e);
            },
        };
        if k != ED25519_ADDRESS_KIND && k != ALIAS_ADDRESS_KIND && k != NFT_ADDRESS_KIND {
            proof {
                assert forall|y: Address| #[trigger] occurs_at(b@, pos as int, y.spec_pack()) implies false by {
                    lemma_occurs_split(b@, pos as int, seq![y.spec_kind()], y.spec_id().spec_pack());
                }
            }
            return Err(Error::InvalidAddressKind(k));
        }
        let (id, p) = match Id32::read(b, p) {
            Ok(v) => v,
            Err(e) => {
                proof {
                    assert forall|y: Address| #[trigger] occurs_at(b@, pos as int, y.spec_pack()) implies false by {
                        lemma_occurs_split(b@, pos as int, seq![y.spec_kind()], y.spec_id().spec_pack());
                    }
                }
                return Err(e);
            },
        };
        let r = if k == ED25519_ADDRESS_KIND {
            Address::Ed25519(id)
        } else if k == ALIAS_ADDRESS_KIND {
            Address::Alias(id)
        } else {
            Address::Nft(id)
        };
        proof {
            lemma_occurs_join(b@, pos as int, seq![k], id.spec_pack());
            assert(r.spec_pack() == seq![k] + id.spec_pack());
            assert forall|y: Address| #[trigger] occurs_at(b@, pos as int, y.spec_pack()) implies y == r by {
                lemma_occurs_split(b@, pos as int, seq![y.spec_kind()], y.spec_id().spec_pack());
            }
        }
        Ok((r, p))
    }
}

} // verus!
