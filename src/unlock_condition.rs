use vstd::bytes::*;
use vstd::prelude::*;

use crate::address::{Address, ALIAS_ADDRESS_KIND};
use crate::codec::{lemma_occurs_join, lemma_occurs_split, occurs_at, read_u32, read_u64, read_u8, write_u32, write_u64};
use crate::error::Error;
use crate::ids::{AliasId, Id32};

verus! {

pub const ADDRESS_UNLOCK_CONDITION_KIND: u8 = 0;

pub const STORAGE_DEPOSIT_RETURN_UNLOCK_CONDITION_KIND: u8 = 1;

pub const TIMELOCK_UNLOCK_CONDITION_KIND: u8 = 2;

pub const EXPIRATION_UNLOCK_CONDITION_KIND: u8 = 3;

pub const STATE_CONTROLLER_ADDRESS_UNLOCK_CONDITION_KIND: u8 = 4;

pub const GOVERNOR_ADDRESS_UNLOCK_CONDITION_KIND: u8 = 5;

pub const IMMUTABLE_ALIAS_ADDRESS_UNLOCK_CONDITION_KIND: u8 = 6;

/// A rule on who may spend an output, and when.
#[derive(Debug, Clone, Copy, PartialEq, Eq, Hash, Structural)]
pub enum UnlockCondition {
    /// The address that controls the output.
    Address(Address),
    /// The amount that whoever spends the output must send back to the return address.
    StorageDepositReturn { return_address: Address, amount: u64 },
    /// The output cannot be spent before the timestamp.
    Timelock(u32),
    /// From the timestamp on, the return address controls the output.
    Expiration { return_address: Address, timestamp: u32 },
    StateControllerAddress(Address),
    GovernorAddress(Address),
    /// The alias that controls a foundry, for ever.
    ImmutableAliasAddress(AliasId),
}

impl UnlockCondition {
    pub open spec fn spec_kind(self) -> u8 {
        match self {
            UnlockCondition::Address(_) => ADDRESS_UNLOCK_CONDITION_KIND,
            UnlockCondition::StorageDepositReturn { .. } => STORAGE_DEPOSIT_RETURN_UNLOCK_CONDITION_KIND,
            UnlockCondition::Timelock(_) => TIMELOCK_UNLOCK_CONDITION_KIND,
            UnlockCondition::Expiration { .. } => EXPIRATION_UNLOCK_CONDITION_KIND,
            UnlockCondition::StateControllerAddress(_) => STATE_CONTROLLER_ADDRESS_UNLOCK_CONDITION_KIND,
            UnlockCondition::GovernorAddress(_) => GOVERNOR_ADDRESS_UNLOCK_CONDITION_KIND,
            UnlockCondition::ImmutableAliasAddress(_) => IMMUTABLE_ALIAS_ADDRESS_UNLOCK_CONDITION_KIND,
        }
    }

    /// The encoding after the kind byte.
    pub open spec fn spec_body(self) -> Seq<u8> {
        match self {
            UnlockCondition::Address(a) => a.spec_pack(),
            UnlockCondition::StorageDepositReturn { return_address, amount } => return_address.spec_pack()
                + spec_u64_to_le_bytes(amount),
            UnlockCondition::Timelock(t) => spec_u32_to_le_bytes(t),
            UnlockCondition::Expiration { return_address, timestamp } => return_address.spec_pack()
                + spec_u32_to_le_bytes(timestamp),
            UnlockCondition::StateControllerAddress(a) => a.spec_pack(),
            UnlockCondition::GovernorAddress(a) => a.spec_pack(),
            UnlockCondition::ImmutableAliasAddress(id) => Address::Alias(id).spec_pack(),
        }
    }

    pub open spec fn spec_pack(self) -> Seq<u8> {
        seq![self.spec_kind()] + self.spec_body()
    }

    pub proof fn lemma_pack_len(self)
        ensures
            5 <= self.spec_pack().len() <= 42,
    {
        lemma_auto_spec_u64_to_from_le_bytes();
        lemma_auto_spec_u32_to_from_le_bytes();
        match self {
            UnlockCondition::Address(a) => a.lemma_pack_len(),
            UnlockCondition::StorageDepositReturn { return_address, .. } => return_address.lemma_pack_len(),
            UnlockCondition::Timelock(_) => {},
            UnlockCondition::Expiration { return_address, .. } => return_address.lemma_pack_len(),
            UnlockCondition::StateControllerAddress(a) => a.lemma_pack_len(),
            UnlockCondition::GovernorAddress(a) => a.lemma_pack_len(),
            UnlockCondition::ImmutableAliasAddress(id) => Address::Alias(id).lemma_pack_len(),
        }
    }

    /// A storage deposit return condition; its amount may not exceed the token supply.
    pub fn new_storage_deposit_return(return_address: Address, amount: u64, token_supply: u64) -> (r: Result<
        UnlockCondition,
        Error,
    >)
        ensures
            match r {
                Ok(u) => amount <= token_supply && u == (UnlockCondition::StorageDepositReturn {
                    return_address,
                    amount,
                }),
                Err(e) => amount > token_supply && e == Error::InvalidStorageDepositAmount(amount),
            },
    {
        if amount > token_supply {
            Err(Error::InvalidStorageDepositAmount(amount))
        } else {
            Ok(UnlockCondition::StorageDepositReturn { return_address, amount })
        }
    }

    pub fn kind(&self) -> (r: u8)
        ensures
            r == self.spec_kind(),
    {
        match self {
            UnlockCondition::Address(_) => ADDRESS_UNLOCK_CONDITION_KIND,
            UnlockCondition::StorageDepositReturn { .. } => STORAGE_DEPOSIT_RETURN_UNLOCK_CONDITION_KIND,
            UnlockCondition::Timelock(_) => TIMELOCK_UNLOCK_CONDITION_KIND,
            UnlockCondition::Expiration { .. } => EXPIRATION_UNLOCK_CONDITION_KIND,
            UnlockCondition::StateControllerAddress(_) => STATE_CONTROLLER_ADDRESS_UNLOCK_CONDITION_KIND,
            UnlockCondition::GovernorAddress(_) => GOVERNOR_ADDRESS_UNLOCK_CONDITION_KIND,
            UnlockCondition::ImmutableAliasAddress(_) => IMMUTABLE_ALIAS_ADDRESS_UNLOCK_CONDITION_KIND,
        }
    }

    pub fn pack_into(&self, out: &mut Vec<u8>)
        ensures
            final(out)@ == old(out)@ + self.spec_pack(),
    {
        out.push(self.kind());
        match self {
            UnlockCondition::Address(a) => a.pack_into(out),
            UnlockCondition::StorageDepositReturn { return_address, amount } => {
                return_address.pack_into(out);
                write_u64(out, *amount);
            },
            UnlockCondition::Timelock(t) => write_u32(out, *t),
            UnlockCondition::Expiration { return_address, timestamp } => {
                return_address.pack_into(out);
                write_u32(out, *timestamp);
            },
            UnlockCondition::StateControllerAddress(a) => a.pack_into(out),
            UnlockCondition::GovernorAddress(a) => a.pack_into(out),
            UnlockCondition::ImmutableAliasAddress(id) => Address::Alias(*id).pack_into(out),
        }
        assert(final(out)@ =~= old(out)@ + self.spec_pack());
    }

    pub fn read(b: &[u8], pos: usize) -> (r: Result<(UnlockCondition, usize), Error>)
        ensures
            match r {
                Ok((x, p)) => p == pos + x.spec_pack().len() && occurs_at(b@, pos as int, x.spec_pack()),
                Err(_) => true,
            },
            forall|y: UnlockCondition| #[trigger] occurs_at(b@, pos as int, y.spec_pack()) ==> r == Ok::<(UnlockCondition, usize), Error>((y, (pos + y.spec_pack().len()) as usize)),
    {
        proof {
            lemma_auto_spec_u64_to_from_le_bytes();
            lemma_auto_spec_u32_to_from_le_bytes();
            assert forall|y: UnlockCondition| #[trigger] occurs_at(b@, pos as int, y.spec_pack()) implies {
                &&& occurs_at(b@, pos as int, seq![y.spec_kind()])
                &&& occurs_at(b@, pos + 1, y.spec_body())
                &&& y.spec_body() == y.spec_pack().subrange(1, y.spec_pack().len() as int)
            } by {
                lemma_occurs_split(b@, pos as int, seq![y.spec_kind()], y.spec_body());
                assert(y.spec_body() =~= y.spec_pack().subrange(1, y.spec_pack().len() as int));
            }
            assert forall|y: UnlockCondition| #[trigger] occurs_at(b@, pos as int, y.spec_pack()) implies
                match y {
                    UnlockCondition::StorageDepositReturn { return_address, amount } => {
                        occurs_at(b@, pos + 1, return_address.spec_pack())
                            && occurs_at(b@, pos + 34, spec_u64_to_le_bytes(amount))
                    },
                    UnlockCondition::Expiration { return_address, timestamp } => {
                        occurs_at(b@, pos + 1, return_address.spec_pack())
                            && occurs_at(b@, pos + 34, spec_u32_to_le_bytes(timestamp))
                    },
                    UnlockCondition::ImmutableAliasAddress(id) => {
                        occurs_at(b@, pos + 1, seq![ALIAS_ADDRESS_KIND])
                            && occurs_at(b@, pos + 2, id.spec_pack())
                    },
                    _ => true,
                } by {
                match y {
                    UnlockCondition::StorageDepositReturn { return_address, amount } => {
                        return_address.lemma_pack_len();
                        lemma_occurs_split(b@, pos + 1, return_address.spec_pack(), spec_u64_to_le_bytes(amount));
                    },
                    UnlockCondition::Expiration { return_address, timestamp } => {
                        return_address.lemma_pack_len();
                        lemma_occurs_split(b@, pos + 1, return_address.spec_pack(), spec_u32_to_le_bytes(timestamp));
                    },
                    UnlockCondition::ImmutableAliasAddress(id) => {
                        lemma_occurs_split(b@, pos + 1, seq![ALIAS_ADDRESS_KIND], id.spec_pack());
                    },
                    _ => {},
                }
            }
        }
        let (k, p) = read_u8(b, pos)?;
        let r = if k == ADDRESS_UNLOCK_CONDITION_KIND {
            let (a, p) = Address::read(b, p)?;
            (UnlockCondition::Address(a), p)
        } else if k == STORAGE_DEPOSIT_RETURN_UNLOCK_CONDITION_KIND {
            let (return_address, p) = Address::read(b, p)?;
            let (amount, p) = read_u64(b, p)?;
            proof {
                return_address.lemma_pack_len();
                lemma_occurs_join(b@, pos + 1, return_address.spec_pack(), spec_u64_to_le_bytes(amount));
            }
            (UnlockCondition::StorageDepositReturn { return_address, amount }, p)
        } else if k == TIMELOCK_UNLOCK_CONDITION_KIND {
            let (t, p) = read_u32(b, p)?;
            (UnlockCondition::Timelock(t), p)
        } else if k == EXPIRATION_UNLOCK_CONDITION_KIND {
            let (return_address, p) = Address::read(b, p)?;
            let (timestamp, p) = read_u32(b, p)?;
            proof {
                return_address.lemma_pack_len();
                lemma_occurs_join(b@, pos + 1, return_address.spec_pack(), spec_u32_to_le_bytes(timestamp));
            }
            (UnlockCondition::Expiration { return_address, timestamp }, p)
        } else if k == STATE_CONTROLLER_ADDRESS_UNLOCK_CONDITION_KIND {
            let (a, p) = Address::read(b, p)?;
            (UnlockCondition::StateControllerAddress(a), p)
        } else if k == GOVERNOR_ADDRESS_UNLOCK_CONDITION_KIND {
            let (a, p) = Address::read(b, p)?;
            (UnlockCondition::GovernorAddress(a), p)
        } else if k == IMMUTABLE_ALIAS_ADDRESS_UNLOCK_CONDITION_KIND {
            let (ak, p) = read_u8(b, p)?;
            if ak != ALIAS_ADDRESS_KIND {
                return Err(Error::InvalidAddressKind(ak));
            }
            let (id, p) = Id32::read(b, p)?;
            proof {
                lemma_occurs_join(b@, pos + 1, seq![ak], id.spec_pack());
            }
            (UnlockCondition::ImmutableAliasAddress(id), p)
        } else {
            return Err(Error::InvalidUnlockConditionKind(k));
        };
        proof {
            let x = r.0;
            lemma_occurs_join(b@, pos as int, seq![k], x.spec_body());
            assert(x.spec_pack() == seq![k] + x.spec_body());
            lemma_auto_spec_u64_to_from_le_bytes();
            lemma_auto_spec_u32_to_from_le_bytes();
            match x {
                UnlockCondition::Address(a) => a.lemma_pack_len(),
                UnlockCondition::StorageDepositReturn { return_address, .. } => return_address.lemma_pack_len(),
                UnlockCondition::Timelock(_) => {},
                UnlockCondition::Expiration { return_address, .. } => return_address.lemma_pack_len(),
                UnlockCondition::StateControllerAddress(a) => a.lemma_pack_len(),
                UnlockCondition::GovernorAddress(a) => a.lemma_pack_len(),
                UnlockCondition::ImmutableAliasAddress(id) => id.lemma_pack_len(),
            }
            assert(r.1 == pos + x.spec_pack().len());
            assert forall|y: UnlockCondition| #[trigger] occurs_at(b@, pos as int, y.spec_pack()) implies y == x by {
                assert(y.spec_kind() == k);
                match y {
                    UnlockCondition::Address(a) => a.lemma_pack_len(),
                    UnlockCondition::StorageDepositReturn { return_address, .. } => return_address.lemma_pack_len(),
                    UnlockCondition::Timelock(_) => {},
                    UnlockCondition::Expiration { return_address, .. } => return_address.lemma_pack_len(),
                    UnlockCondition::StateControllerAddress(a) => a.lemma_pack_len(),
                    UnlockCondition::GovernorAddress(a) => a.lemma_pack_len(),
                    UnlockCondition::ImmutableAliasAddress(id) => id.lemma_pack_len(),
                }
            }
        }
        Ok(r)
    }
}


/// An allow-list of unlock condition kinds: bit `k` stands for kind `k`.
pub type UnlockConditionFlags = u16;

pub const UNLOCK_CONDITION_FLAG_ADDRESS: UnlockConditionFlags = 1;

pub const UNLOCK_CONDITION_FLAG_STORAGE_DEPOSIT_RETURN: UnlockConditionFlags = 2;

pub const UNLOCK_CONDITION_FLAG_TIMELOCK: UnlockConditionFlags = 4;

pub const UNLOCK_CONDITION_FLAG_EXPIRATION: UnlockConditionFlags = 8;

pub const UNLOCK_CONDITION_FLAG_STATE_CONTROLLER_ADDRESS: UnlockConditionFlags = 16;

pub const UNLOCK_CONDITION_FLAG_GOVERNOR_ADDRESS: UnlockConditionFlags = 32;

pub const UNLOCK_CONDITION_FLAG_IMMUTABLE_ALIAS_ADDRESS: UnlockConditionFlags = 64;

pub open spec fn flag_allows(flags: u16, kind: u8) -> bool {
    kind < 16 && (flags >> kind) & 1 == 1
}

pub fn allows(flags: u16, kind: u8) -> (r: bool)
    ensures
        r == flag_allows(flags, kind),
{
    kind < 16 && (flags >> kind) & 1 == 1
}

/// The encodings of the conditions of `s`, one after the other.
pub open spec fn pack_unlock_condition_items(s: Seq<UnlockCondition>) -> Seq<u8>
    decreases s.len(),
{
    if s.len() == 0 {
        Seq::empty()
    } else {
        s[0].spec_pack() + pack_unlock_condition_items(s.drop_first())
    }
}

/// The count byte, then each condition.
pub open spec fn pack_unlock_condition_seq(s: Seq<UnlockCondition>) -> Seq<u8> {
    seq![s.len() as u8] + pack_unlock_condition_items(s)
}

/// Strictly ascending by kind: no kind twice.
pub open spec fn unlock_conditions_sorted(s: Seq<UnlockCondition>) -> bool {
    forall|i: int, j: int| 0 <= i < j < s.len() ==> (#[trigger] s[i]).spec_kind() < (#[trigger] s[j]).spec_kind()
}

/// The first condition of the kind in `s`.
pub open spec fn find_unlock_condition(s: Seq<UnlockCondition>, kind: u8) -> Option<UnlockCondition>
    decreases s.len(),
{
    if s.len() == 0 {
        None
    } else if s[0].spec_kind() == kind {
        Some(s[0])
    } else {
        find_unlock_condition(s.drop_first(), kind)
    }
}

pub open spec fn has_unlock_condition_kind(s: Seq<UnlockCondition>, kind: u8) -> bool {
    exists|i: int| 0 <= i < s.len() && (#[trigger] s[i]).spec_kind() == kind
}

/// Every condition of `s` has a kind that `flags` allows.
pub open spec fn unlock_conditions_allowed(s: Seq<UnlockCondition>, flags: u16) -> bool {
    forall|i: int| 0 <= i < s.len() ==> flag_allows(flags, (#[trigger] s[i]).spec_kind())
}

/// `e` names the first condition of `s` whose kind `flags` does not allow: its index and kind.
pub open spec fn disallowed_unlock_condition_error(s: Seq<UnlockCondition>, flags: u16, e: Error) -> bool {
    exists|i: int| 0 <= i < s.len() && !flag_allows(flags, (#[trigger] s[i]).spec_kind())
        && (forall|j: int| 0 <= j < i ==> flag_allows(flags, (#[trigger] s[j]).spec_kind()))
        && e == (Error::DisallowedUnlockCondition { index: i as usize, kind: s[i].spec_kind() })
}

/// `new` is `old` with `t` added, unless a condition of its kind was there already.
pub open spec fn unlock_condition_added(old: Seq<UnlockCondition>, t: UnlockCondition, new: Seq<UnlockCondition>) -> bool {
    &&& unlock_conditions_sorted(new)
    &&& forall|x: UnlockCondition| #[trigger] new.contains(x) <==> (old.contains(x) || (x == t
        && !has_unlock_condition_kind(old, t.spec_kind())))
}

/// `new` is `old` with `t` in the place of the condition of its kind, or added.
pub open spec fn unlock_condition_replaced(old: Seq<UnlockCondition>, t: UnlockCondition, new: Seq<UnlockCondition>) -> bool {
    &&& unlock_conditions_sorted(new)
    &&& forall|x: UnlockCondition| #[trigger] new.contains(x) <==> ((old.contains(x) && x.spec_kind() != t.spec_kind())
        || x == t)
}

/// Of two conditions of one kind added in turn to conditions without that kind, the first stays.
pub proof fn lemma_add_keeps_first(
    s: Seq<UnlockCondition>,
    first: UnlockCondition,
    second: UnlockCondition,
    s1: Seq<UnlockCondition>,
    s2: Seq<UnlockCondition>,
)
    requires
        !has_unlock_condition_kind(s, first.spec_kind()),
        first.spec_kind() == second.spec_kind(),
        unlock_condition_added(s, first, s1),
        unlock_condition_added(s1, second, s2),
    ensures
        s2.contains(first),
        second != first ==> !s2.contains(second),
{
    assert(s1.contains(first));
    let k = choose|k: int| 0 <= k < s1.len() && s1[k] == first;
    assert(has_unlock_condition_kind(s1, second.spec_kind()));
    if second != first && s2.contains(second) {
        assert(s1.contains(second));
        assert(s.contains(second));
        let m = choose|m: int| 0 <= m < s.len() && s[m] == second;
        assert(has_unlock_condition_kind(s, first.spec_kind()));
    }
}

/// Of two conditions of one kind put in turn, the last stays.
pub proof fn lemma_replace_keeps_last(
    s: Seq<UnlockCondition>,
    first: UnlockCondition,
    second: UnlockCondition,
    s1: Seq<UnlockCondition>,
    s2: Seq<UnlockCondition>,
)
    requires
        first.spec_kind() == second.spec_kind(),
        unlock_condition_replaced(s, first, s1),
        unlock_condition_replaced(s1, second, s2),
    ensures
        s2.contains(second),
        first != second ==> !s2.contains(first),
{
}

/// `x` stands in `v` before any other condition of its kind.
pub open spec fn first_of_unlock_condition_kind(v: Seq<UnlockCondition>, x: UnlockCondition) -> bool {
    exists|m: int| 0 <= m < v.len() && v[m] == x && forall|l: int| 0 <= l < m ==> (#[trigger] v[l]).spec_kind() != x.spec_kind()
}

pub proof fn lemma_unlock_condition_items_push(s: Seq<UnlockCondition>, t: UnlockCondition)
    ensures
        pack_unlock_condition_items(s.push(t)) == pack_unlock_condition_items(s) + t.spec_pack(),
    decreases s.len(),
{
    if s.len() == 0 {
        assert(s.push(t).drop_first() =~= Seq::<UnlockCondition>::empty());
        assert(s.push(t)[0] == t);
        assert(pack_unlock_condition_items(s.push(t).drop_first()) =~= Seq::<u8>::empty());
        assert(pack_unlock_condition_items(s) =~= Seq::<u8>::empty());
        assert(pack_unlock_condition_items(s.push(t)) =~= t.spec_pack());
    } else {
        lemma_unlock_condition_items_push(s.drop_first(), t);
        assert(s.push(t).drop_first() =~= s.drop_first().push(t));
        assert(pack_unlock_condition_items(s.push(t)) =~= pack_unlock_condition_items(s) + t.spec_pack());
    }
}

pub proof fn lemma_unlock_condition_items_concat(a: Seq<UnlockCondition>, b: Seq<UnlockCondition>)
    ensures
        pack_unlock_condition_items(a + b) == pack_unlock_condition_items(a) + pack_unlock_condition_items(b),
    decreases a.len(),
{
    if a.len() == 0 {
        assert(a + b =~= b);
        assert(pack_unlock_condition_items(a) =~= Seq::<u8>::empty());
        assert(pack_unlock_condition_items(a + b) =~= pack_unlock_condition_items(a) + pack_unlock_condition_items(b));
    } else {
        lemma_unlock_condition_items_concat(a.drop_first(), b);
        assert((a + b).drop_first() =~= a.drop_first() + b);
        assert((a + b)[0] == a[0]);
        assert(pack_unlock_condition_items(a + b) =~= pack_unlock_condition_items(a) + pack_unlock_condition_items(b));
    }
}

/// Inserting a condition lengthens the encoding by the condition's encoding.
pub proof fn lemma_unlock_condition_items_insert_len(s: Seq<UnlockCondition>, i: int, x: UnlockCondition)
    requires
        0 <= i <= s.len(),
    ensures
        pack_unlock_condition_items(s.insert(i, x)).len() == pack_unlock_condition_items(s).len() + x.spec_pack().len(),
{
    let a = s.take(i);
    let c = s.skip(i);
    assert(s =~= a + c);
    assert(s.insert(i, x) =~= a + (seq![x] + c));
    lemma_unlock_condition_items_concat(a, c);
    lemma_unlock_condition_items_concat(a, seq![x] + c);
    lemma_unlock_condition_items_concat(seq![x], c);
    assert(seq![x].drop_first() =~= Seq::<UnlockCondition>::empty());
    assert(pack_unlock_condition_items(Seq::<UnlockCondition>::empty()) =~= Seq::<u8>::empty());
    assert(pack_unlock_condition_items(seq![x]) =~= x.spec_pack());
}

/// Putting a condition in the place of another changes the length by the difference of their encodings.
pub proof fn lemma_unlock_condition_items_update_len(s: Seq<UnlockCondition>, i: int, x: UnlockCondition)
    requires
        0 <= i < s.len(),
    ensures
        pack_unlock_condition_items(s.update(i, x)).len() + s[i].spec_pack().len() == pack_unlock_condition_items(s).len() + x.spec_pack().len(),
{
    let a = s.take(i);
    let c = s.skip(i + 1);
    assert(s =~= a + (seq![s[i]] + c));
    assert(s.update(i, x) =~= a + (seq![x] + c));
    lemma_unlock_condition_items_concat(a, seq![s[i]] + c);
    lemma_unlock_condition_items_concat(a, seq![x] + c);
    lemma_unlock_condition_items_concat(seq![x], c);
    lemma_unlock_condition_items_concat(seq![s[i]], c);
    assert(seq![x].drop_first() =~= Seq::<UnlockCondition>::empty());
    assert(seq![s[i]].drop_first() =~= Seq::<UnlockCondition>::empty());
    assert(pack_unlock_condition_items(Seq::<UnlockCondition>::empty()) =~= Seq::<u8>::empty());
    assert(pack_unlock_condition_items(seq![x]) =~= x.spec_pack());
    assert(pack_unlock_condition_items(seq![s[i]]) =~= s[i].spec_pack());
}

pub proof fn lemma_unlock_conditions_short(s: Seq<UnlockCondition>)
    requires
        unlock_conditions_sorted(s),
    ensures
        s.len() <= 7,
        forall|i: int| 0 <= i < s.len() ==> (#[trigger] s[i]).spec_kind() >= i,
    decreases s.len(),
{
    if s.len() > 0 {
        let t = s.drop_last();
        assert(unlock_conditions_sorted(t)) by {
            assert forall|i: int, j: int| 0 <= i < j < t.len() implies (#[trigger] t[i]).spec_kind() < (#[trigger] t[j]).spec_kind() by {
                assert(s[i] == t[i] && s[j] == t[j]);
            }
        }
        lemma_unlock_conditions_short(t);
        assert forall|i: int| 0 <= i < s.len() implies (#[trigger] s[i]).spec_kind() >= i by {
            if i > 0 {
                assert(t[i - 1] == s[i - 1]);
                assert(s[i - 1].spec_kind() < s[i].spec_kind());
            }
        }
        assert(s[s.len() - 1].spec_kind() <= 6);
    }
}

pub proof fn lemma_first_unlock_condition(v: Seq<UnlockCondition>, k: int) -> (m: int)
    requires
        0 <= k < v.len(),
    ensures
        0 <= m <= k,
        v[m].spec_kind() == v[k].spec_kind(),
        forall|l: int| 0 <= l < m ==> (#[trigger] v[l]).spec_kind() != v[k].spec_kind(),
    decreases k,
{
    if exists|l: int| 0 <= l < k && (#[trigger] v[l]).spec_kind() == v[k].spec_kind() {
        let l = choose|l: int| 0 <= l < k && (#[trigger] v[l]).spec_kind() == v[k].spec_kind();
        lemma_first_unlock_condition(v, l)
    } else {
        k
    }
}

/// A set of unlock conditions, at most one of each kind, in ascending order of kind.
#[derive(Debug, Clone, PartialEq, Eq, Hash)]
pub struct UnlockConditions {
    items: Vec<UnlockCondition>,
}

impl View for UnlockConditions {
    type V = Seq<UnlockCondition>;

    closed spec fn view(&self) -> Seq<UnlockCondition> {
        self.items@
    }
}

impl UnlockConditions {
    pub fn new() -> (r: UnlockConditions)
        ensures
            r@ == Seq::<UnlockCondition>::empty(),
    {
        UnlockConditions { items: Vec::new() }
    }

    pub fn len(&self) -> (r: usize)
        ensures
            r == self@.len(),
    {
        self.items.len()
    }

    pub fn is_empty(&self) -> (r: bool)
        ensures
            r == (self@.len() == 0),
    {
        self.items.len() == 0
    }

    pub fn get(&self, i: usize) -> (r: UnlockCondition)
        requires
            i < self@.len(),
        ensures
            r == self@[i as int],
    {
        self.items[i]
    }

    pub fn to_vec(&self) -> (r: Vec<UnlockCondition>)
        ensures
            r@ == self@,
    {
        let mut r: Vec<UnlockCondition> = Vec::new();
        let mut i: usize = 0;
        while i < self.items.len()
            invariant
                i <= self.items@.len(),
                r@ == self.items@.take(i as int),
            decreases self.items@.len() - i,
        {
            r.push(self.items[i]);
            i += 1;
            assert(r@ =~= self.items@.take(i as int));
        }
        assert(r@ =~= self.items@);
        r
    }

    pub fn duplicate(&self) -> (r: UnlockConditions)
        ensures
            r@ == self@,
    {
        UnlockConditions { items: self.to_vec() }
    }

    /// The condition of the kind, if there is one.
    pub fn find(&self, kind: u8) -> (r: Option<UnlockCondition>)
        ensures
            r == find_unlock_condition(self@, kind),
            match r {
                Some(u) => u.spec_kind() == kind && self@.contains(u),
                None => !has_unlock_condition_kind(self@, kind),
            },
    {
        let mut i: usize = 0;
        assert(self.items@.skip(0) =~= self.items@);
        while i < self.items.len()
            invariant
                i <= self.items@.len(),
                forall|j: int| 0 <= j < i ==> (#[trigger] self.items@[j]).spec_kind() != kind,
                find_unlock_condition(self.items@, kind) == find_unlock_condition(self.items@.skip(i as int), kind),
            decreases self.items@.len() - i,
        {
            let ghost rest = self.items@.skip(i as int);
            assert(rest[0] == self.items@[i as int]);
            assert(rest.drop_first() =~= self.items@.skip(i + 1));
            if self.items[i].kind() == kind {
                return Some(self.items[i]);
            }
            i += 1;
        }
        assert(self.items@.skip(i as int) =~= Seq::<UnlockCondition>::empty());
        None
    }

    /// The address of the address unlock condition, if there is one.
    pub fn address(&self) -> (r: Option<Address>)
        ensures
            r == match find_unlock_condition(self@, ADDRESS_UNLOCK_CONDITION_KIND) {
                Some(UnlockCondition::Address(a)) => Some(a),
                _ => None,
            },
            match r {
                Some(a) => self@.contains(UnlockCondition::Address(a)),
                None => !has_unlock_condition_kind(self@, ADDRESS_UNLOCK_CONDITION_KIND),
            },
    {
        match self.find(ADDRESS_UNLOCK_CONDITION_KIND) {
            Some(UnlockCondition::Address(a)) => Some(a),
            _ => None,
        }
    }

    /// The alias of the immutable alias address unlock condition, if there is one.
    pub fn immutable_alias_address(&self) -> (r: Option<AliasId>)
        ensures
            r == match find_unlock_condition(self@, IMMUTABLE_ALIAS_ADDRESS_UNLOCK_CONDITION_KIND) {
                Some(UnlockCondition::ImmutableAliasAddress(a)) => Some(a),
                _ => None,
            },
            match r {
                Some(a) => self@.contains(UnlockCondition::ImmutableAliasAddress(a)),
                None => !has_unlock_condition_kind(self@, IMMUTABLE_ALIAS_ADDRESS_UNLOCK_CONDITION_KIND),
            },
    {
        match self.find(IMMUTABLE_ALIAS_ADDRESS_UNLOCK_CONDITION_KIND) {
            Some(UnlockCondition::ImmutableAliasAddress(a)) => Some(a),
            _ => None,
        }
    }

    /// Who can unlock an output that `address` controls at `milestone_timestamp`: the return
    /// address of an expiration condition whose time has come, else `address`.
    pub fn locked_address(&self, address: Address, milestone_timestamp: u32) -> (r: Address)
        ensures
            r == match find_unlock_condition(self@, EXPIRATION_UNLOCK_CONDITION_KIND) {
                Some(UnlockCondition::Expiration { return_address, timestamp }) => if milestone_timestamp >= timestamp {
                    return_address
                } else {
                    address
                },
                _ => address,
            },
    {
        match self.find(EXPIRATION_UNLOCK_CONDITION_KIND) {
            Some(UnlockCondition::Expiration { return_address, timestamp }) => {
                if milestone_timestamp >= timestamp {
                    return_address
                } else {
                    address
                }
            },
            _ => address,
        }
    }

    /// Adds `t` unless a condition of its kind is there already.
    pub fn add(&mut self, t: UnlockCondition)
        requires
            unlock_conditions_sorted(old(self)@),
        ensures
            unlock_conditions_sorted(final(self)@),
            forall|x: UnlockCondition| #[trigger] final(self)@.contains(x) <==> (old(self)@.contains(x)
                || (x == t && !has_unlock_condition_kind(old(self)@, t.spec_kind()))),
            has_unlock_condition_kind(old(self)@, t.spec_kind()) ==> final(self)@ == old(self)@,
            !has_unlock_condition_kind(old(self)@, t.spec_kind()) ==> exists|i: int| 0 <= i <= old(self)@.len()
                && #[trigger] old(self)@.insert(i, t) == final(self)@,
    {
        self.insert(t, false);
    }

    /// Puts `t` in the place of the condition of its kind, or adds it.
    pub fn replace(&mut self, t: UnlockCondition)
        requires
            unlock_conditions_sorted(old(self)@),
        ensures
            unlock_conditions_sorted(final(self)@),
            forall|x: UnlockCondition| #[trigger] final(self)@.contains(x) <==> ((old(self)@.contains(x)
                && x.spec_kind() != t.spec_kind()) || x == t),
            has_unlock_condition_kind(old(self)@, t.spec_kind()) ==> exists|i: int| 0 <= i < old(self)@.len()
                && old(self)@[i].spec_kind() == t.spec_kind() && #[trigger] old(self)@.update(i, t) == final(self)@,
            !has_unlock_condition_kind(old(self)@, t.spec_kind()) ==> exists|i: int| 0 <= i <= old(self)@.len()
                && #[trigger] old(self)@.insert(i, t) == final(self)@,
    {
        self.insert(t, true);
    }

    pub fn clear(&mut self)
        ensures
            final(self)@ == Seq::<UnlockCondition>::empty(),
    {
        self.items.clear();
    }

    fn insert(&mut self, t: UnlockCondition, overwrite: bool)
        requires
            unlock_conditions_sorted(old(self)@),
        ensures
            unlock_conditions_sorted(final(self)@),
            !overwrite ==> forall|x: UnlockCondition| #[trigger] final(self)@.contains(x) <==> (old(self)@.contains(x)
                || (x == t && !has_unlock_condition_kind(old(self)@, t.spec_kind()))),
            overwrite ==> forall|x: UnlockCondition| #[trigger] final(self)@.contains(x) <==> ((old(self)@.contains(x)
                && x.spec_kind() != t.spec_kind()) || x == t),
            !overwrite && has_unlock_condition_kind(old(self)@, t.spec_kind()) ==> final(self)@ == old(self)@,
            overwrite && has_unlock_condition_kind(old(self)@, t.spec_kind()) ==> exists|i: int| 0 <= i < old(self)@.len()
                && old(self)@[i].spec_kind() == t.spec_kind() && #[trigger] old(self)@.update(i, t) == final(self)@,
            !has_unlock_condition_kind(old(self)@, t.spec_kind()) ==> exists|i: int| 0 <= i <= old(self)@.len()
                && #[trigger] old(self)@.insert(i, t) == final(self)@,
    {
        let ghost s = self.items@;
        let k = t.kind();
        let mut i: usize = 0;
        while i < self.items.len() && self.items[i].kind() < k
            invariant
                self.items@ == s,
                i <= s.len(),
                forall|j: int| 0 <= j < i ==> (#[trigger] s[j]).spec_kind() < k,
            decreases s.len() - i,
        {
            i += 1;
        }
        if i < self.items.len() && self.items[i].kind() == k {
            if overwrite {
                self.items.set(i, t);
                proof {
                    assert(s.update(i as int, t) == self.items@);
                    assert forall|a: int, c: int| 0 <= a < c < self.items@.len() implies (#[trigger] self.items@[a]).spec_kind() < (#[trigger] self.items@[c]).spec_kind() by {
                        assert(s[a].spec_kind() < s[c].spec_kind());
                    }
                    assert forall|x: UnlockCondition| #[trigger] self.items@.contains(x) <==> ((s.contains(x)
                        && x.spec_kind() != t.spec_kind()) || x == t) by {
                        if self.items@.contains(x) {
                            let m = choose|m: int| 0 <= m < self.items@.len() && self.items@[m] == x;
                            if m != i {
                                assert(s[m] == x);
                                assert(s[m].spec_kind() != s[i as int].spec_kind());
                            }
                        }
                        if s.contains(x) && x.spec_kind() != t.spec_kind() {
                            let m = choose|m: int| 0 <= m < s.len() && s[m] == x;
                            assert(self.items@[m] == x);
                        }
                        if x == t {
                            assert(self.items@[i as int] == x);
                        }
                    }
                }
            } else {
                proof {
                    assert(has_unlock_condition_kind(s, t.spec_kind()));
                }
            }
        } else {
            proof {
                assert forall|j: int| 0 <= j < s.len() implies (#[trigger] s[j]).spec_kind() != k by {
                    if j > i {
                        assert(s[i as int].spec_kind() < s[j].spec_kind());
                    }
                }
            }
            self.items.insert(i, t);
            proof {
                let n = self.items@;
                assert(s.insert(i as int, t) == n);
                assert forall|a: int, c: int| 0 <= a < c < n.len() implies (#[trigger] n[a]).spec_kind() < (#[trigger] n[c]).spec_kind() by {
                    if c < i {
                        assert(s[a].spec_kind() < s[c].spec_kind());
                    } else if c == i {
                    } else if a < i {
                        if c - 1 > i {
                            assert(s[i as int].spec_kind() < s[c - 1].spec_kind());
                        }
                    } else if a == i {
                        if c - 1 > i {
                            assert(s[i as int].spec_kind() < s[c - 1].spec_kind());
                        }
                    } else {
                        assert(s[a - 1].spec_kind() < s[c - 1].spec_kind());
                    }
                }
                assert forall|x: UnlockCondition| #[trigger] n.contains(x) <==> (s.contains(x) || x == t) by {
                    if n.contains(x) {
                        let m = choose|m: int| 0 <= m < n.len() && n[m] == x;
                        if m < i {
                            assert(s[m] == x);
                        } else if m > i {
                            assert(s[m - 1] == x);
                        }
                    }
                    if s.contains(x) {
                        let m = choose|m: int| 0 <= m < s.len() && s[m] == x;
                        if m < i {
                            assert(n[m] == x);
                        } else {
                            assert(n[m + 1] == x);
                        }
                    }
                    if x == t {
                        assert(n[i as int] == x);
                    }
                }
                assert forall|x: UnlockCondition| s.contains(x) implies x.spec_kind() != t.spec_kind() by {
                    let m = choose|m: int| 0 <= m < s.len() && s[m] == x;
                }
                assert(!has_unlock_condition_kind(s, t.spec_kind()));
            }
        }
    }

    /// Holds the conditions of `v`, each the first of its kind there.
    pub fn from_vec(v: Vec<UnlockCondition>) -> (r: UnlockConditions)
        ensures
            unlock_conditions_sorted(r@),
            forall|x: UnlockCondition| #[trigger] r@.contains(x) <==> first_of_unlock_condition_kind(v@, x),
    {
        let mut r = UnlockConditions::new();
        let mut i: usize = 0;
        while i < v.len()
            invariant
                i <= v@.len(),
                unlock_conditions_sorted(r@),
                forall|x: UnlockCondition| #[trigger] r@.contains(x) <==> first_of_unlock_condition_kind(v@.take(i as int), x),
            decreases v@.len() - i,
        {
            let t = v[i];
            proof {
                let p = v@.take(i as int);
                assert(has_unlock_condition_kind(r@, t.spec_kind()) <==> has_unlock_condition_kind(p, t.spec_kind())) by {
                    if has_unlock_condition_kind(r@, t.spec_kind()) {
                        let k = choose|k: int| 0 <= k < r@.len() && (#[trigger] r@[k]).spec_kind() == t.spec_kind();
                        assert(r@.contains(r@[k]));
                        let m = choose|m: int| 0 <= m < p.len() && p[m] == r@[k] && forall|l: int| 0 <= l < m ==> (#[trigger] p[l]).spec_kind() != r@[k].spec_kind();
                        assert(p[m].spec_kind() == t.spec_kind());
                    }
                    if has_unlock_condition_kind(p, t.spec_kind()) {
                        let k = choose|k: int| 0 <= k < p.len() && (#[trigger] p[k]).spec_kind() == t.spec_kind();
                        let m = lemma_first_unlock_condition(p, k);
                        assert(first_of_unlock_condition_kind(p, p[m]));
                        assert(r@.contains(p[m]));
                        let j = choose|j: int| 0 <= j < r@.len() && r@[j] == p[m];
                        assert(r@[j].spec_kind() == t.spec_kind());
                    }
                }
            }
            r.add(t);
            i += 1;
            proof {
                let p = v@.take(i - 1);
                let q = v@.take(i as int);
                assert forall|x: UnlockCondition| #[trigger] r@.contains(x) <==> first_of_unlock_condition_kind(q, x) by {
                    if first_of_unlock_condition_kind(q, x) {
                        let m = choose|m: int| 0 <= m < q.len() && q[m] == x && forall|l: int| 0 <= l < m ==> (#[trigger] q[l]).spec_kind() != x.spec_kind();
                        if m < p.len() {
                            assert(p[m] == x);
                            assert(first_of_unlock_condition_kind(p, x));
                        } else {
                            assert(!has_unlock_condition_kind(p, t.spec_kind()));
                        }
                    }
                    if first_of_unlock_condition_kind(p, x) {
                        let m = choose|m: int| 0 <= m < p.len() && p[m] == x && forall|l: int| 0 <= l < m ==> (#[trigger] p[l]).spec_kind() != x.spec_kind();
                        assert(q[m] == x);
                    }
                    if x == t && !has_unlock_condition_kind(p, t.spec_kind()) {
                        assert(q[p.len() as int] == x);
                        assert forall|l: int| 0 <= l < p.len() implies (#[trigger] q[l]).spec_kind() != x.spec_kind() by {
                            assert(q[l] == p[l]);
                        }
                    }
                }
            }
        }
        assert(v@.take(v@.len() as int) =~= v@);
        r
    }

    /// Whether every condition has a kind that `flags` allows; where not, the first that has not.
    pub fn verify_allowed(&self, flags: u16) -> (r: Result<(), Error>)
        ensures
            match r {
                Ok(()) => unlock_conditions_allowed(self@, flags),
                Err(e) => disallowed_unlock_condition_error(self@, flags, e),
            },
    {
        let mut i: usize = 0;
        while i < self.items.len()
            invariant
                i <= self.items@.len(),
                forall|j: int| 0 <= j < i ==> flag_allows(flags, (#[trigger] self.items@[j]).spec_kind()),
            decreases self.items@.len() - i,
        {
            let k = self.items[i].kind();
            if !allows(flags, k) {
                proof {
                    let w = i as int;
                    assert(0 <= w < self@.len() && !flag_allows(flags, self@[w].spec_kind()));
                    assert(forall|j: int| 0 <= j < w ==> flag_allows(flags, (#[trigger] self@[j]).spec_kind()));
                }
                return Err(Error::DisallowedUnlockCondition { index: i, kind: k });
            }
            i += 1;
        }
        Ok(())
    }

    pub fn pack_into(&self, out: &mut Vec<u8>)
        ensures
            final(out)@ == old(out)@ + pack_unlock_condition_seq(self@),
    {
        out.push(self.items.len() as u8);
        let ghost start = out@;
        let mut i: usize = 0;
        while i < self.items.len()
            invariant
                i <= self.items@.len(),
                out@ == start + pack_unlock_condition_items(self.items@.take(i as int)),
            decreases self.items@.len() - i,
        {
            self.items[i].pack_into(out);
            proof {
                lemma_unlock_condition_items_push(self.items@.take(i as int), self.items@[i as int]);
                assert(self.items@.take(i + 1) =~= self.items@.take(i as int).push(self.items@[i as int]));
            }
            i += 1;
        }
        assert(self.items@.take(i as int) =~= self.items@);
        assert(final(out)@ =~= old(out)@ + pack_unlock_condition_seq(self@));
    }

    pub fn read(b: &[u8], pos: usize) -> (r: Result<(UnlockConditions, usize), Error>)
        ensures
            match r {
                Ok((x, p)) => unlock_conditions_sorted(x@) && p == pos + pack_unlock_condition_seq(x@).len()
                    && occurs_at(b@, pos as int, pack_unlock_condition_seq(x@)),
                Err(_) => true,
            },
            forall|s: Seq<UnlockCondition>| unlock_conditions_sorted(s) && #[trigger] occurs_at(b@, pos as int, pack_unlock_condition_seq(s))
                ==> (r is Ok && r->Ok_0.0@ == s && r->Ok_0.1 == pos + pack_unlock_condition_seq(s).len()),
    {
        proof {
            assert forall|s: Seq<UnlockCondition>| unlock_conditions_sorted(s) && #[trigger] occurs_at(b@, pos as int, pack_unlock_condition_seq(s)) implies {
                &&& occurs_at(b@, pos as int, seq![s.len() as u8])
                &&& occurs_at(b@, pos + 1, pack_unlock_condition_items(s))
                &&& s.len() <= 7
            } by {
                lemma_occurs_split(b@, pos as int, seq![s.len() as u8], pack_unlock_condition_items(s));
                lemma_unlock_conditions_short(s);
            }
        }
        let (n, items_start) = read_u8(b, pos)?;
        let mut items: Vec<UnlockCondition> = Vec::new();
        let mut p = items_start;
        let mut i: u8 = 0;
        proof {
            assert(pack_unlock_condition_items(items@) =~= Seq::<u8>::empty());
            assert(b@.subrange(items_start as int, items_start as int) =~= Seq::<u8>::empty());
            assert forall|s: Seq<UnlockCondition>| unlock_conditions_sorted(s) && #[trigger] occurs_at(b@, pos as int, pack_unlock_condition_seq(s))
                implies (s.len() == n && items@ == s.take(0) && occurs_at(b@, p as int, pack_unlock_condition_items(s.skip(0)))) by {
                assert(occurs_at(b@, pos as int, seq![s.len() as u8]));
                assert(items@ =~= s.take(0));
                assert(s.skip(0) =~= s);
            }
        }
        while i < n
            invariant
                items_start == pos + 1,
                i <= n,
                items@.len() == i,
                unlock_conditions_sorted(items@),
                p == items_start + pack_unlock_condition_items(items@).len(),
                occurs_at(b@, items_start as int, pack_unlock_condition_items(items@)),
                forall|s: Seq<UnlockCondition>| unlock_conditions_sorted(s) && #[trigger] occurs_at(b@, pos as int, pack_unlock_condition_seq(s))
                    ==> (s.len() == n && items@ == s.take(i as int) && occurs_at(b@, p as int, pack_unlock_condition_items(s.skip(i as int)))),
            decreases n - i,
        {
            proof {
                assert forall|s: Seq<UnlockCondition>| unlock_conditions_sorted(s) && #[trigger] occurs_at(b@, pos as int, pack_unlock_condition_seq(s))
                    implies occurs_at(b@, p as int, s[i as int].spec_pack()) && occurs_at(b@, p + s[i as int].spec_pack().len(), pack_unlock_condition_items(s.skip(i + 1))) by {
                    let rest = s.skip(i as int);
                    assert(rest.drop_first() =~= s.skip(i + 1));
                    assert(rest[0] == s[i as int]);
                    lemma_occurs_split(b@, p as int, s[i as int].spec_pack(), pack_unlock_condition_items(s.skip(i + 1)));
                }
            }
            let (t, q) = UnlockCondition::read(b, p)?;
            if i > 0 && items[(i - 1) as usize].kind() >= t.kind() {
                proof {
                    assert forall|s: Seq<UnlockCondition>| unlock_conditions_sorted(s) && #[trigger] occurs_at(b@, pos as int, pack_unlock_condition_seq(s)) implies false by {
                        assert(s[i - 1] == items@[i - 1]);
                        assert(s[i - 1].spec_kind() < s[i as int].spec_kind());
                    }
                }
                return Err(Error::UnlockConditionsNotUniqueSorted);
            }
            proof {
                lemma_unlock_condition_items_push(items@, t);
                lemma_occurs_join(b@, items_start as int, pack_unlock_condition_items(items@), t.spec_pack());
                assert forall|a: int, c: int| 0 <= a < c < items@.len() + 1 implies (#[trigger] items@.push(t)[a]).spec_kind() < (#[trigger] items@.push(t)[c]).spec_kind() by {
                    if c == items@.len() && a < c - 1 {
                        assert(items@[a].spec_kind() < items@[c - 1].spec_kind());
                    }
                }
            }
            items.push(t);
            p = q;
            i = i + 1;
            proof {
                assert forall|s: Seq<UnlockCondition>| unlock_conditions_sorted(s) && #[trigger] occurs_at(b@, pos as int, pack_unlock_condition_seq(s))
                    implies items@ == s.take(i as int) by {
                    assert(items@ =~= s.take(i as int));
                }
            }
        }
        let r = UnlockConditions { items };
        proof {
            lemma_occurs_join(b@, pos as int, seq![n], pack_unlock_condition_items(items@));
            lemma_unlock_conditions_short(items@);
            assert(pack_unlock_condition_seq(items@) == seq![n] + pack_unlock_condition_items(items@));
            assert forall|s: Seq<UnlockCondition>| unlock_conditions_sorted(s) && #[trigger] occurs_at(b@, pos as int, pack_unlock_condition_seq(s))
                implies r@ == s by {
                assert(s.take(n as int) =~= s);
            }
        }
        Ok((r, p))
    }
}

} // verus!
