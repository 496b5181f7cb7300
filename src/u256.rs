use vstd::bytes::*;
use vstd::prelude::*;

use crate::codec::{lemma_occurs_join, lemma_occurs_split, occurs_at, read_u128, write_u128};
use crate::error::Error;

verus! {

pub open spec fn pow128() -> nat {
    0x1_0000_0000_0000_0000_0000_0000_0000_0000nat
}

/// An unsigned 256-bit integer, held as two 128-bit halves.
#[derive(Debug, Clone, Copy, PartialEq, Eq, Hash, Structural)]
pub struct U256 {
    pub lo: u128,
    pub hi: u128,
}

impl U256 {
    /// The number this value stands for.
    pub open spec fn value(self) -> nat {
        self.hi as nat * pow128() + self.lo as nat
    }

    /// Sixteen little-endian bytes of the low half, then sixteen of the high half.
    pub open spec fn spec_pack(self) -> Seq<u8> {
        spec_u128_to_le_bytes(self.lo) + spec_u128_to_le_bytes(self.hi)
    }

    pub fn zero() -> (r: U256)
        ensures
            r.value() == 0,
    {
        U256 { lo: 0, hi: 0 }
    }

    pub fn from_u128(x: u128) -> (r: U256)
        ensures
            r.value() == x,
    {
        U256 { lo: x, hi: 0 }
    }

    pub fn is_zero(&self) -> (r: bool)
        ensures
            r == (self.value() == 0),
    {
        self.lo == 0 && self.hi == 0
    }

    pub fn eq(&self, other: &U256) -> (r: bool)
        ensures
            r == (self.value() == other.value()),
    {
        self.lo == other.lo && self.hi == other.hi
    }

    pub fn lt(&self, other: &U256) -> (r: bool)
        ensures
            r == (self.value() < other.value()),
    {
        self.hi < other.hi || (self.hi == other.hi && self.lo < other.lo)
    }

    /// The difference of two values, the first not below the second.
    pub fn sub(&self, other: &U256) -> (r: U256)
        requires
            other.value() <= self.value(),
        ensures
            r.value() == self.value() - other.value(),
    {
        if self.lo >= other.lo {
            U256 { lo: self.lo - other.lo, hi: self.hi - other.hi }
        } else {
            U256 { lo: (u128::MAX - other.lo) + self.lo + 1, hi: self.hi - other.hi - 1 }
        }
    }

    /// The sum of two values, or `None` where it does not fit in 256 bits.
    pub fn checked_add(&self, other: &U256) -> (r: Option<U256>)
        ensures
            match r {
                Some(s) => s.value() == self.value() + other.value(),
                None => self.value() + other.value() >= pow128() * pow128(),
            },
    {
        if self.lo <= u128::MAX - other.lo {
            if self.hi <= u128::MAX - other.hi {
                Some(U256 { lo: self.lo + other.lo, hi: self.hi + other.hi })
            } else {
                None
            }
        } else {
            if other.hi < u128::MAX && self.hi <= u128::MAX - other.hi - 1 {
                Some(U256 { lo: self.lo - (u128::MAX - other.lo) - 1, hi: self.hi + other.hi + 1 })
            } else {
                None
            }
        }
    }

    pub proof fn lemma_pack_len(self)
        ensures
            self.spec_pack().len() == 32,
    {
        lemma_auto_spec_u128_to_from_le_bytes();
    }

    pub fn pack_into(&self, out: &mut Vec<u8>)
        ensures
            final(out)@ == old(out)@ + self.spec_pack(),
    {
        write_u128(out, self.lo);
        write_u128(out, self.hi);
        assert(final(out)@ =~= old(out)@ + self.spec_pack());
    }

    pub fn read(b: &[u8], pos: usize) -> (r: Result<(U256, usize), Error>)
        ensures
            match r {
                Ok((x, p)) => p == pos + 32 && occurs_at(b@, pos as int, x.spec_pack()),
                Err(_) => true,
            },
            forall|y: U256| #[trigger] occurs_at(b@, pos as int, y.spec_pack()) ==> r == Ok::<(U256, usize), Error>((y, (pos + 32) as usize)),
    {
        proof { lemma_auto_spec_u128_to_from_le_bytes(); }
        let (lo, p) = match read_u128(b, pos) {
            Ok(v) => v,
            Err(e) => {
                proof {
                    assert forall|y: U256| #[trigger] occurs_at(b@, pos as int, y.spec_pack()) implies false by {
                        lemma_occurs_split(b@, pos as int, spec_u128_to_le_bytes(y.lo), spec_u128_to_le_bytes(y.hi));
                    }
                }
                return Err(e);
            },
        };
        let (hi, p) = match read_u128(b, p) {
            Ok(v) => v,
            Err(e) => {
                proof {
                    assert forall|y: U256| #[trigger] occurs_at(b@, pos as int, y.spec_pack()) implies false by {
                        lemma_occurs_split(b@, pos as int, spec_u128_to_le_bytes(y.lo), spec_u128_to_le_bytes(y.hi));
                    }
                }
                return Err(e);
            },
        };
        let r = U256 { lo, hi };
        proof {
            lemma_occurs_join(b@, pos as int, spec_u128_to_le_bytes(lo), spec_u128_to_le_bytes(hi));
            assert forall|y: U256| #[trigger] occurs_at(b@, pos as int, y.spec_pack()) implies y == r by {
                lemma_occurs_split(b@, pos as int, spec_u128_to_le_bytes(y.lo), spec_u128_to_le_bytes(y.hi));
            }
        }
        Ok((r, p))
    }
}

} // verus!
