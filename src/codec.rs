use vstd::bytes::*;
use vstd::prelude::*;
use vstd::slice::slice_subrange;

use crate::error::Error;

verus! {

/// `e` stands in `b` from position `pos` on.
pub open spec fn occurs_at(b: Seq<u8>, pos: int, e: Seq<u8>) -> bool {
    &&& 0 <= pos
    &&& pos + e.len() <= b.len()
    &&& b.subrange(pos, pos + e.len()) == e
}

pub proof fn lemma_occurs_split(b: Seq<u8>, pos: int, e1: Seq<u8>, e2: Seq<u8>)
    requires
        occurs_at(b, pos, e1 + e2),
    ensures
        occurs_at(b, pos, e1),
        occurs_at(b, pos + e1.len(), e2),
{
    let whole = b.subrange(pos, pos + e1.len() + e2.len());
    assert(whole == e1 + e2);
    assert(b.subrange(pos, pos + e1.len()) =~= whole.subrange(0, e1.len() as int));
    assert(whole.subrange(0, e1.len() as int) =~= e1);
    assert(b.subrange(pos + e1.len(), pos + e1.len() + e2.len()) =~= whole.subrange(
        e1.len() as int,
        whole.len() as int,
    ));
    assert(whole.subrange(e1.len() as int, whole.len() as int) =~= e2);
}

pub proof fn lemma_occurs_join(b: Seq<u8>, pos: int, e1: Seq<u8>, e2: Seq<u8>)
    requires
        occurs_at(b, pos, e1),
        occurs_at(b, pos + e1.len(), e2),
    ensures
        occurs_at(b, pos, e1 + e2),
{
    assert(b.subrange(pos, pos + e1.len() + e2.len()) =~= e1 + e2);
}

pub proof fn lemma_occurs_whole(b: Seq<u8>)
    ensures
        occurs_at(b, 0, b),
{
    assert(b.subrange(0, b.len() as int) =~= b);
}

pub fn write_u16(out: &mut Vec<u8>, x: u16)
    ensures
        final(out)@ == old(out)@ + spec_u16_to_le_bytes(x),
{
    let mut bs = u16_to_le_bytes(x);
    out.append(&mut bs);
}

pub fn write_u32(out: &mut Vec<u8>, x: u32)
    ensures
        final(out)@ == old(out)@ + spec_u32_to_le_bytes(x),
{
    let mut bs = u32_to_le_bytes(x);
    out.append(&mut bs);
}

pub fn write_u64(out: &mut Vec<u8>, x: u64)
    ensures
        final(out)@ == old(out)@ + spec_u64_to_le_bytes(x),
{
    let mut bs = u64_to_le_bytes(x);
    out.append(&mut bs);
}

pub fn write_u128(out: &mut Vec<u8>, x: u128)
    ensures
        final(out)@ == old(out)@ + spec_u128_to_le_bytes(x),
{
    let mut bs = u128_to_le_bytes(x);
    out.append(&mut bs);
}

pub fn read_u8(b: &[u8], pos: usize) -> (r: Result<(u8, usize), Error>)
    ensures
        match r {
            Ok((x, p)) => p == pos + 1 && occurs_at(b@, pos as int, seq![x]),
            Err(_) => true,
        },
        forall|y: u8| #[trigger] occurs_at(b@, pos as int, seq![y]) ==> r == Ok::<(u8, usize), Error>((y, (pos + 1) as usize)),
{
    if pos < b.len() {
        let x = b[pos];
        assert(b@.subrange(pos as int, pos + 1) =~= seq![x]);
        assert forall|y: u8| #[trigger] occurs_at(b@, pos as int, seq![y]) implies y == x by {
            assert(b@.subrange(pos as int, pos + 1)[0] == y);
        }
        Ok((x, pos + 1))
    } else {
        Err(Error::UnexpectedEnd)
    }
}

pub fn read_u16(b: &[u8], pos: usize) -> (r: Result<(u16, usize), Error>)
    ensures
        match r {
            Ok((x, p)) => p == pos + 2 && occurs_at(b@, pos as int, spec_u16_to_le_bytes(x)),
            Err(_) => true,
        },
        forall|y: u16| #[trigger] occurs_at(b@, pos as int, spec_u16_to_le_bytes(y)) ==> r == Ok::<(u16, usize), Error>((y, (pos + 2) as usize)),
{
    proof { lemma_auto_spec_u16_to_from_le_bytes(); }
    if pos <= b.len() && 2 <= b.len() - pos {
        let s = slice_subrange(b, pos, pos + 2);
        let x = u16_from_le_bytes(s);
        Ok((x, pos + 2))
    } else {
        Err(Error::UnexpectedEnd)
    }
}

pub fn read_u32(b: &[u8], pos: usize) -> (r: Result<(u32, usize), Error>)
    ensures
        match r {
            Ok((x, p)) => p == pos + 4 && occurs_at(b@, pos as int, spec_u32_to_le_bytes(x)),
            Err(_) => true,
        },
        forall|y: u32| #[trigger] occurs_at(b@, pos as int, spec_u32_to_le_bytes(y)) ==> r == Ok::<(u32, usize), Error>((y, (pos + 4) as usize)),
{
    proof { lemma_auto_spec_u32_to_from_le_bytes(); }
    if pos <= b.len() && 4 <= b.len() - pos {
        let s = slice_subrange(b, pos, pos + 4);
        let x = u32_from_le_bytes(s);
        Ok((x, pos + 4))
    } else {
        Err(Error::UnexpectedEnd)
    }
}

pub fn read_u64(b: &[u8], pos: usize) -> (r: Result<(u64, usize), Error>)
    ensures
        match r {
            Ok((x, p)) => p == pos + 8 && occurs_at(b@, pos as int, spec_u64_to_le_bytes(x)),
            Err(_) => true,
        },
        forall|y: u64| #[trigger] occurs_at(b@, pos as int, spec_u64_to_le_bytes(y)) ==> r == Ok::<(u64, usize), Error>((y, (pos + 8) as usize)),
{
    proof { lemma_auto_spec_u64_to_from_le_bytes(); }
    if pos <= b.len() && 8 <= b.len() - pos {
        let s = slice_subrange(b, pos, pos + 8);
        let x = u64_from_le_bytes(s);
        Ok((x, pos + 8))
    } else {
        Err(Error::UnexpectedEnd)
    }
}

pub fn read_u128(b: &[u8], pos: usize) -> (r: Result<(u128, usize), Error>)
    ensures
        match r {
            Ok((x, p)) => p == pos + 16 && occurs_at(b@, pos as int, spec_u128_to_le_bytes(x)),
            Err(_) => true,
        },
        forall|y: u128| #[trigger] occurs_at(b@, pos as int, spec_u128_to_le_bytes(y)) ==> r == Ok::<(u128, usize), Error>((y, (pos + 16) as usize)),
{
    proof { lemma_auto_spec_u128_to_from_le_bytes(); }
    if pos <= b.len() && 16 <= b.len() - pos {
        let s = slice_subrange(b, pos, pos + 16);
        let x = u128_from_le_bytes(s);
        Ok((x, pos + 16))
    } else {
        Err(Error::UnexpectedEnd)
    }
}

} // verus!
