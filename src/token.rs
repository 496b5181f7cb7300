use vstd::bytes::*;
use vstd::prelude::*;

use crate::address::ALIAS_ADDRESS_KIND;
use crate::codec::{lemma_occurs_join, lemma_occurs_split, occurs_at, read_u32, read_u8, write_u32};
use crate::error::Error;
use crate::ids::{AliasId, Id32};
use crate::u256::U256;
use vstd::seq_lib::*;

verus! {

pub const SIMPLE_TOKEN_SCHEME_KIND: u8 = 0;

/// The most native tokens that one output may hold.
pub const NATIVE_TOKEN_COUNT_MAX: u8 = 64;

/// The identifier of a foundry, which is also the identifier of the native token it controls:
/// the alias address that controls the foundry, its serial number and its token scheme kind.
#[derive(Debug, Clone, Copy, PartialEq, Eq, Hash, Structural)]
pub struct TokenId {
    pub alias_id: AliasId,
    pub serial_number: u32,
    pub token_scheme_kind: u8,
}

pub type FoundryId = TokenId;

impl TokenId {
    /// The alias address (its kind byte and identifier), the serial number, the scheme kind.
    pub open spec fn spec_pack(self) -> Seq<u8> {
        seq![ALIAS_ADDRESS_KIND] + self.alias_id.spec_pack() + spec_u32_to_le_bytes(self.serial_number)
            + seq![self.token_scheme_kind]
    }

    /// The canonical order of token identifiers.
    pub open spec fn spec_lt(self, other: TokenId) -> bool {
        ||| self.alias_id.lo < other.alias_id.lo
        ||| (self.alias_id.lo == other.alias_id.lo && self.alias_id.hi < other.alias_id.hi)
        ||| (self.alias_id == other.alias_id && self.serial_number < other.serial_number)
        ||| (self.alias_id == other.alias_id && self.serial_number == other.serial_number
            && self.token_scheme_kind < other.token_scheme_kind)
    }

    pub proof fn lemma_pack_len(self)
        ensures
            self.spec_pack().len() == 38,
    {
        self.alias_id.lemma_pack_len();
        lemma_auto_spec_u32_to_from_le_bytes();
    }

    /// The identifier of the foundry with these parts.
    pub fn build(alias_id: &AliasId, serial_number: u32, token_scheme_kind: u8) -> (r: TokenId)
        ensures
            r.alias_id == *alias_id,
            r.serial_number == serial_number,
            r.token_scheme_kind == token_scheme_kind,
    {
        TokenId { alias_id: *alias_id, serial_number, token_scheme_kind }
    }

    pub fn lt(&self, other: &TokenId) -> (r: bool)
        ensures
            r == self.spec_lt(*other),
    {
        if self.alias_id.lo != other.alias_id.lo {
            self.alias_id.lo < other.alias_id.lo
        } else if self.alias_id.hi != other.alias_id.hi {
            self.alias_id.hi < other.alias_id.hi
        } else if self.serial_number != other.serial_number {
            self.serial_number < other.serial_number
        } else {
            self.token_scheme_kind < other.token_scheme_kind
        }
    }

    pub fn pack_into(&self, out: &mut Vec<u8>)
        ensures
            final(out)@ == old(out)@ + self.spec_pack(),
    {
        out.push(ALIAS_ADDRESS_KIND);
        self.alias_id.pack_into(out);
        write_u32(out, self.serial_number);
        out.push(self.token_scheme_kind);
        assert(final(out)@ =~= old(out)@ + self.spec_pack());
    }

    pub fn read(b: &[u8], pos: usize) -> (r: Result<(TokenId, usize), Error>)
        ensures
            match r {
                Ok((x, p)) => p == pos + 38 && occurs_at(b@, pos as int, x.spec_pack()),
                Err(_) => true,
            },
            forall|y: TokenId| #[trigger] occurs_at(b@, pos as int, y.spec_pack()) ==> r == Ok::<(TokenId, usize), Error>((y, (pos + 38) as usize)),
    {
        proof {
            assert forall|y: TokenId| #[trigger] occurs_at(b@, pos as int, y.spec_pack()) implies {
                &&& occurs_at(b@, pos as int, seq![ALIAS_ADDRESS_KIND])
                &&& occurs_at(b@, pos + 1, y.alias_id.spec_pack())
                &&& occurs_at(b@, pos + 33, spec_u32_to_le_bytes(y.serial_number))
                &&& occurs_at(b@, pos + 37, seq![y.token_scheme_kind])
            } by {
                y.lemma_pack_len();
                y.alias_id.lemma_pack_len();
                lemma_auto_spec_u32_to_from_le_bytes();
                let a = seq![ALIAS_ADDRESS_KIND] + y.alias_id.spec_pack();
                let c = a + spec_u32_to_le_bytes(y.serial_number);
                lemma_occurs_split(b@, pos as int, c, seq![y.token_scheme_kind]);
                lemma_occurs_split(b@, pos as int, a, spec_u32_to_le_bytes(y.serial_number));
                lemma_occurs_split(b@, pos as int, seq![ALIAS_ADDRESS_KIND], y.alias_id.spec_pack());
            }
        }
        let (k, p) = read_u8(b, pos)?;
        if k != ALIAS_ADDRESS_KIND {
            return Err(Error::InvalidAddressKind(k));
        }
        let (alias_id, p) = Id32::read(b, p)?;
        let (serial_number, p) = read_u32(b, p)?;
        let (token_scheme_kind, p) = read_u8(b, p)?;
        let r = TokenId { alias_id, serial_number, token_scheme_kind };
        proof {
            alias_id.lemma_pack_len();
            lemma_auto_spec_u32_to_from_le_bytes();
            lemma_occurs_join(b@, pos as int, seq![k], alias_id.spec_pack());
            lemma_occurs_join(b@, pos as int, seq![k] + alias_id.spec_pack(), spec_u32_to_le_bytes(serial_number));
            lemma_occurs_join(b@, pos as int, seq![k] + alias_id.spec_pack() + spec_u32_to_le_bytes(serial_number), seq![token_scheme_kind]);
        }
        Ok((r, p))
    }

    pub proof fn lemma_lt_order(a: TokenId, b: TokenId, c: TokenId)
        ensures
            !a.spec_lt(a),
            a.spec_lt(b) && b.spec_lt(c) ==> a.spec_lt(c),
            a.spec_lt(b) ==> !b.spec_lt(a),
            !a.spec_lt(b) && a != b ==> b.spec_lt(a),
    {
    }
}

/// An amount of one native token.
#[derive(Debug, Clone, Copy, PartialEq, Eq, Hash, Structural)]
pub struct NativeToken {
    pub token_id: TokenId,
    pub amount: U256,
}

impl NativeToken {
    pub open spec fn spec_pack(self) -> Seq<u8> {
        self.token_id.spec_pack() + self.amount.spec_pack()
    }

    pub proof fn lemma_pack_len(self)
        ensures
            self.spec_pack().len() == 70,
    {
        self.token_id.lemma_pack_len();
        self.amount.lemma_pack_len();
    }

    /// A native token amount; a null amount is refused.
    pub fn new(token_id: TokenId, amount: U256) -> (r: Result<NativeToken, Error>)
        ensures
            match r {
                Ok(t) => amount.value() > 0 && t.token_id == token_id && t.amount == amount,
                Err(e) => amount.value() == 0 && e == Error::NativeTokensNullAmount,
            },
    {
        if amount.is_zero() {
            Err(Error::NativeTokensNullAmount)
        } else {
            Ok(NativeToken { token_id, amount })
        }
    }

    pub fn pack_into(&self, out: &mut Vec<u8>)
        ensures
            final(out)@ == old(out)@ + self.spec_pack(),
    {
        self.token_id.pack_into(out);
        self.amount.pack_into(out);
        assert(final(out)@ =~= old(out)@ + self.spec_pack());
    }

    pub fn read(b: &[u8], pos: usize) -> (r: Result<(NativeToken, usize), Error>)
        ensures
            match r {
                Ok((x, p)) => p == pos + 70 && occurs_at(b@, pos as int, x.spec_pack()),
                Err(_) => true,
            },
            forall|y: NativeToken| #[trigger] occurs_at(b@, pos as int, y.spec_pack()) ==> r == Ok::<(NativeToken, usize), Error>((y, (pos + 70) as usize)),
    {
        proof {
            assert forall|y: NativeToken| #[trigger] occurs_at(b@, pos as int, y.spec_pack()) implies {
                &&& occurs_at(b@, pos as int, y.token_id.spec_pack())
                &&& occurs_at(b@, pos + 38, y.amount.spec_pack())
            } by {
                y.token_id.lemma_pack_len();
                lemma_occurs_split(b@, pos as int, y.token_id.spec_pack(), y.amount.spec_pack());
            }
        }
        let (token_id, p) = TokenId::read(b, pos)?;
        let (amount, p) = U256::read(b, p)?;
        proof {
            token_id.lemma_pack_len();
            amount.lemma_pack_len();
            lemma_occurs_join(b@, pos as int, token_id.spec_pack(), amount.spec_pack());
        }
        Ok((NativeToken { token_id, amount }, p))
    }
}

/// The encodings of the tokens of `s`, one after the other.
pub open spec fn pack_native_token_items(s: Seq<NativeToken>) -> Seq<u8>
    decreases s.len(),
{
    if s.len() == 0 {
        Seq::empty()
    } else {
        s[0].spec_pack() + pack_native_token_items(s.drop_first())
    }
}

/// The count byte, then each token.
pub open spec fn pack_native_token_seq(s: Seq<NativeToken>) -> Seq<u8> {
    seq![s.len() as u8] + pack_native_token_items(s)
}

/// Strictly ascending by token identifier: no identifier twice.
pub open spec fn native_tokens_sorted(s: Seq<NativeToken>) -> bool {
    forall|i: int, j: int| 0 <= i < j < s.len() ==> (#[trigger] s[i].token_id).spec_lt(#[trigger] s[j].token_id)
}

/// What an output may hold: sorted, at most the maximum count, no null amount.
pub open spec fn native_tokens_valid(s: Seq<NativeToken>) -> bool {
    &&& native_tokens_sorted(s)
    &&& s.len() <= NATIVE_TOKEN_COUNT_MAX
    &&& forall|i: int| 0 <= i < s.len() ==> (#[trigger] s[i]).amount.value() > 0
}

/// The error for sorted tokens that may not stand in an output: too many, or a null amount.
pub open spec fn native_tokens_error(s: Seq<NativeToken>, e: Error) -> bool {
    if s.len() > NATIVE_TOKEN_COUNT_MAX {
        e == Error::InvalidNativeTokenCount(NATIVE_TOKEN_COUNT_MAX)
    } else {
        e == Error::NativeTokensNullAmount
    }
}

pub open spec fn has_token_id(s: Seq<NativeToken>, id: TokenId) -> bool {
    exists|i: int| 0 <= i < s.len() && (#[trigger] s[i]).token_id == id
}

pub proof fn lemma_native_token_items_push(s: Seq<NativeToken>, t: NativeToken)
    ensures
        pack_native_token_items(s.push(t)) == pack_native_token_items(s) + t.spec_pack(),
    decreases s.len(),
{
    if s.len() == 0 {
        assert(s.push(t).drop_first() =~= Seq::<NativeToken>::empty());
        assert(s.push(t)[0] == t);
        assert(pack_native_token_items(s.push(t).drop_first()) =~= Seq::<u8>::empty());
        assert(pack_native_token_items(s) =~= Seq::<u8>::empty());
        assert(pack_native_token_items(s.push(t)) =~= t.spec_pack());
    } else {
        lemma_native_token_items_push(s.drop_first(), t);
        assert(s.push(t).drop_first() =~= s.drop_first().push(t));
        assert(pack_native_token_items(s.push(t)) =~= pack_native_token_items(s) + t.spec_pack());
    }
}

/// A set of native tokens, at most one of each identifier, in ascending order of identifier.
#[derive(Debug, Clone, PartialEq, Eq, Hash)]
pub struct NativeTokens {
    items: Vec<NativeToken>,
}

impl View for NativeTokens {
    type V = Seq<NativeToken>;

    closed spec fn view(&self) -> Seq<NativeToken> {
        self.items@
    }
}

impl NativeTokens {
    pub fn new() -> (r: NativeTokens)
        ensures
            r@ == Seq::<NativeToken>::empty(),
    {
        NativeTokens { items: Vec::new() }
    }

    pub fn len(&self) -> (r: usize)
        ensures
            r == self@.len(),
    {
        self.items.len()
    }

    pub fn is_empty(&self) -> (r: bool)
        ensures
            r == (self@.len() == 0),
    {
        self.items.len() == 0
    }

    pub fn get(&self, i: usize) -> (r: NativeToken)
        requires
            i < self@.len(),
        ensures
            r == self@[i as int],
    {
        self.items[i]
    }

    pub fn to_vec(&self) -> (r: Vec<NativeToken>)
        ensures
            r@ == self@,
    {
        let mut r: Vec<NativeToken> = Vec::new();
        let mut i: usize = 0;
        while i < self.items.len()
            invariant
                i <= self.items@.len(),
                r@ == self.items@.take(i as int),
            decreases self.items@.len() - i,
        {
            r.push(self.items[i]);
            i += 1;
            assert(r@ =~= self.items@.take(i as int));
        }
        assert(r@ =~= self.items@);
        r
    }

    pub fn duplicate(&self) -> (r: NativeTokens)
        ensures
            r@ == self@,
    {
        NativeTokens { items: self.to_vec() }
    }

    /// Adds `t` unless a token of its identifier is there already.
    pub fn add(&mut self, t: NativeToken)
        requires
            native_tokens_sorted(old(self)@),
        ensures
            native_tokens_sorted(final(self)@),
            forall|x: NativeToken| #[trigger] final(self)@.contains(x) <==> (old(self)@.contains(x)
                || (x == t && !has_token_id(old(self)@, t.token_id))),
    {
        self.insert(t, false);
    }

    /// Puts `t` in the place of the token of its identifier, or adds it.
    pub fn replace(&mut self, t: NativeToken)
        requires
            native_tokens_sorted(old(self)@),
        ensures
            native_tokens_sorted(final(self)@),
            forall|x: NativeToken| #[trigger] final(self)@.contains(x) <==> ((old(self)@.contains(x)
                && x.token_id != t.token_id) || x == t),
    {
        self.insert(t, true);
    }

    fn insert(&mut self, t: NativeToken, overwrite: bool)
        requires
            native_tokens_sorted(old(self)@),
        ensures
            native_tokens_sorted(final(self)@),
            !overwrite ==> forall|x: NativeToken| #[trigger] final(self)@.contains(x) <==> (old(self)@.contains(x)
                || (x == t && !has_token_id(old(self)@, t.token_id))),
            overwrite ==> forall|x: NativeToken| #[trigger] final(self)@.contains(x) <==> ((old(self)@.contains(x)
                && x.token_id != t.token_id) || x == t),
    {
        let ghost s = self.items@;
        let mut i: usize = 0;
        while i < self.items.len() && self.items[i].token_id.lt(&t.token_id)
            invariant
                self.items@ == s,
                i <= s.len(),
                forall|j: int| 0 <= j < i ==> (#[trigger] s[j].token_id).spec_lt(t.token_id),
            decreases s.len() - i,
        {
            i += 1;
        }
        proof {
            assert forall|j: int| i <= j < s.len() implies !(#[trigger] s[j].token_id).spec_lt(t.token_id) by {
                if j > i {
                    TokenId::lemma_lt_order(s[i as int].token_id, s[j].token_id, t.token_id);
                }
            }
        }
        if i < self.items.len() && self.items[i].token_id == t.token_id {
            proof {
                assert forall|j: int| 0 <= j < s.len() && j != i implies (#[trigger] s[j]).token_id != t.token_id by {
                    TokenId::lemma_lt_order(s[i as int].token_id, s[j].token_id, t.token_id);
                    TokenId::lemma_lt_order(s[j].token_id, s[i as int].token_id, t.token_id);
                }
            }
            if overwrite {
                self.items.set(i, t);
                proof {
                    assert forall|a: int, c: int| 0 <= a < c < self.items@.len() implies (#[trigger] self.items@[a].token_id).spec_lt(#[trigger] self.items@[c].token_id) by {
                        assert(s[a].token_id.spec_lt(s[c].token_id));
                    }
                    assert forall|x: NativeToken| #[trigger] self.items@.contains(x) <==> ((s.contains(x)
                        && x.token_id != t.token_id) || x == t) by {
                        if self.items@.contains(x) {
                            let k = choose|k: int| 0 <= k < self.items@.len() && self.items@[k] == x;
                            if k != i {
                                assert(s[k] == x);
                            }
                        }
                        if s.contains(x) && x.token_id != t.token_id {
                            let k = choose|k: int| 0 <= k < s.len() && s[k] == x;
                            assert(self.items@[k] == x);
                        }
                        if x == t {
                            assert(self.items@[i as int] == x);
                        }
                    }
                }
            } else {
                proof {
                    assert(has_token_id(s, t.token_id));
                }
            }
        } else {
            proof {
                assert forall|j: int| 0 <= j < s.len() implies (#[trigger] s[j]).token_id != t.token_id by {
                    if j >= i {
                        TokenId::lemma_lt_order(s[i as int].token_id, s[j].token_id, t.token_id);
                        TokenId::lemma_lt_order(t.token_id, s[i as int].token_id, s[j].token_id);
                    }
                }
                assert forall|j: int| i <= j < s.len() implies t.token_id.spec_lt(#[trigger] s[j].token_id) by {
                    TokenId::lemma_lt_order(t.token_id, s[i as int].token_id, s[j].token_id);
                    TokenId::lemma_lt_order(s[j].token_id, t.token_id, t.token_id);
                    TokenId::lemma_lt_order(s[i as int].token_id, s[j].token_id, t.token_id);
                }
            }
            self.items.insert(i, t);
            proof {
                let n = self.items@;
                assert(n == s.insert(i as int, t));
                assert forall|a: int, c: int| 0 <= a < c < n.len() implies (#[trigger] n[a].token_id).spec_lt(#[trigger] n[c].token_id) by {
                    if c < i {
                        assert(s[a].token_id.spec_lt(s[c].token_id));
                    } else if c == i {
                    } else if a < i {
                        TokenId::lemma_lt_order(s[a].token_id, t.token_id, s[c - 1].token_id);
                    } else if a == i {
                    } else {
                        assert(s[a - 1].token_id.spec_lt(s[c - 1].token_id));
                    }
                }
                assert forall|x: NativeToken| #[trigger] n.contains(x) <==> (s.contains(x) || x == t) by {
                    if n.contains(x) {
                        let k = choose|k: int| 0 <= k < n.len() && n[k] == x;
                        if k < i {
                            assert(s[k] == x);
                        } else if k > i {
                            assert(s[k - 1] == x);
                        }
                    }
                    if s.contains(x) {
                        let k = choose|k: int| 0 <= k < s.len() && s[k] == x;
                        if k < i {
                            assert(n[k] == x);
                        } else {
                            assert(n[k + 1] == x);
                        }
                    }
                    if x == t {
                        assert(n[i as int] == x);
                    }
                }
                assert(!has_token_id(s, t.token_id));
                assert forall|x: NativeToken| s.contains(x) implies x.token_id != t.token_id by {
                    let k = choose|k: int| 0 <= k < s.len() && s[k] == x;
                }
            }
        }
    }

    /// Holds the tokens of `v`, each the first of its identifier there.
    pub fn from_vec(v: Vec<NativeToken>) -> (r: NativeTokens)
        ensures
            native_tokens_sorted(r@),
            forall|x: NativeToken| #[trigger] r@.contains(x) <==> first_of_token_id(v@, x),
    {
        let mut r = NativeTokens::new();
        let mut i: usize = 0;
        while i < v.len()
            invariant
                i <= v@.len(),
                native_tokens_sorted(r@),
                forall|x: NativeToken| #[trigger] r@.contains(x) <==> first_of_token_id(v@.take(i as int), x),
            decreases v@.len() - i,
        {
            let t = v[i];
            proof {
                let p = v@.take(i as int);
                let q = v@.take(i + 1);
                assert(q =~= p.push(t));
                assert(has_token_id(r@, t.token_id) <==> has_token_id(p, t.token_id)) by {
                    if has_token_id(r@, t.token_id) {
                        let k = choose|k: int| 0 <= k < r@.len() && (#[trigger] r@[k]).token_id == t.token_id;
                        assert(r@.contains(r@[k]));
                        let m = choose|m: int| 0 <= m < p.len() && p[m] == r@[k] && forall|l: int| 0 <= l < m ==> (#[trigger] p[l]).token_id != r@[k].token_id;
                        assert(p[m].token_id == t.token_id);
                    }
                    if has_token_id(p, t.token_id) {
                        let k = choose|k: int| 0 <= k < p.len() && (#[trigger] p[k]).token_id == t.token_id;
                        let m = lemma_first_exists(p, k);
                        assert(first_of_token_id(p, p[m]));
                        assert(r@.contains(p[m]));
                        let j = choose|j: int| 0 <= j < r@.len() && r@[j] == p[m];
                        assert(r@[j].token_id == t.token_id);
                    }
                }
            }
            r.add(t);
            i += 1;
            proof {
                let p = v@.take(i - 1);
                let q = v@.take(i as int);
                assert forall|x: NativeToken| #[trigger] r@.contains(x) <==> first_of_token_id(q, x) by {
                    if first_of_token_id(q, x) {
                        let m = choose|m: int| 0 <= m < q.len() && q[m] == x && forall|l: int| 0 <= l < m ==> (#[trigger] q[l]).token_id != x.token_id;
                        if m < p.len() {
                            assert(p[m] == x);
                            assert(first_of_token_id(p, x));
                        } else {
                            assert(!has_token_id(p, t.token_id));
                        }
                    }
                    if first_of_token_id(p, x) {
                        let m = choose|m: int| 0 <= m < p.len() && p[m] == x && forall|l: int| 0 <= l < m ==> (#[trigger] p[l]).token_id != x.token_id;
                        assert(q[m] == x);
                    }
                    if x == t && !has_token_id(p, t.token_id) {
                        assert(q[p.len() as int] == x);
                        assert forall|l: int| 0 <= l < p.len() implies (#[trigger] q[l]).token_id != x.token_id by {
                            assert(q[l] == p[l]);
                        }
                    }
                }
            }
        }
        assert(v@.take(v@.len() as int) =~= v@);
        r
    }

    /// Whether the tokens may stand in an output.
    pub fn verify(&self) -> (r: Result<(), Error>)
        requires
            native_tokens_sorted(self@),
        ensures
            match r {
                Ok(()) => native_tokens_valid(self@),
                Err(e) => !native_tokens_valid(self@) && native_tokens_error(self@, e),
            },
    {
        if self.items.len() > NATIVE_TOKEN_COUNT_MAX as usize {
            return Err(Error::InvalidNativeTokenCount(NATIVE_TOKEN_COUNT_MAX));
        }
        let mut i: usize = 0;
        while i < self.items.len()
            invariant
                i <= self.items@.len(),
                self.items@.len() <= NATIVE_TOKEN_COUNT_MAX,
                forall|j: int| 0 <= j < i ==> (#[trigger] self.items@[j]).amount.value() > 0,
            decreases self.items@.len() - i,
        {
            if self.items[i].amount.is_zero() {
                assert(self@[i as int].amount.value() == 0);
                return Err(Error::NativeTokensNullAmount);
            }
            i += 1;
        }
        Ok(())
    }

    pub fn pack_into(&self, out: &mut Vec<u8>)
        ensures
            final(out)@ == old(out)@ + pack_native_token_seq(self@),
    {
        out.push(self.items.len() as u8);
        let ghost start = out@;
        let mut i: usize = 0;
        while i < self.items.len()
            invariant
                i <= self.items@.len(),
                out@ == start + pack_native_token_items(self.items@.take(i as int)),
            decreases self.items@.len() - i,
        {
            self.items[i].pack_into(out);
            proof {
                lemma_native_token_items_push(self.items@.take(i as int), self.items@[i as int]);
                assert(self.items@.take(i + 1) =~= self.items@.take(i as int).push(self.items@[i as int]));
            }
            i += 1;
        }
        assert(self.items@.take(i as int) =~= self.items@);
        assert(final(out)@ =~= old(out)@ + pack_native_token_seq(self@));
    }

    pub fn read(b: &[u8], pos: usize) -> (r: Result<(NativeTokens, usize), Error>)
        ensures
            match r {
                Ok((x, p)) => native_tokens_valid(x@) && p == pos + pack_native_token_seq(x@).len()
                    && occurs_at(b@, pos as int, pack_native_token_seq(x@)),
                Err(_) => true,
            },
            forall|s: Seq<NativeToken>| native_tokens_valid(s) && #[trigger] occurs_at(b@, pos as int, pack_native_token_seq(s))
                ==> (r is Ok && r->Ok_0.0@ == s && r->Ok_0.1 == pos + pack_native_token_seq(s).len()),
    {
        proof {
            assert forall|s: Seq<NativeToken>| native_tokens_valid(s) && #[trigger] occurs_at(b@, pos as int, pack_native_token_seq(s)) implies {
                &&& occurs_at(b@, pos as int, seq![s.len() as u8])
                &&& occurs_at(b@, pos + 1, pack_native_token_items(s))
            } by {
                lemma_occurs_split(b@, pos as int, seq![s.len() as u8], pack_native_token_items(s));
            }
        }
        let (n, items_start) = read_u8(b, pos)?;
        if n > NATIVE_TOKEN_COUNT_MAX {
            return Err(Error::InvalidNativeTokenCount(n));
        }
        let mut items: Vec<NativeToken> = Vec::new();
        let mut p = items_start;
        let mut i: u8 = 0;
        proof {
            assert(pack_native_token_items(items@) =~= Seq::<u8>::empty());
            assert(b@.subrange(items_start as int, items_start as int) =~= Seq::<u8>::empty());
            assert forall|s: Seq<NativeToken>| native_tokens_valid(s) && #[trigger] occurs_at(b@, pos as int, pack_native_token_seq(s))
                implies (s.len() == n && items@ == s.take(0) && occurs_at(b@, p as int, pack_native_token_items(s.skip(0)))) by {
                assert(occurs_at(b@, pos as int, seq![s.len() as u8]));
                assert(items@ =~= s.take(0));
                assert(s.skip(0) =~= s);
            }
        }
        while i < n
            invariant
                items_start == pos + 1,
                n <= NATIVE_TOKEN_COUNT_MAX,
                i <= n,
                items@.len() == i,
                native_tokens_valid(items@),
                p == items_start + pack_native_token_items(items@).len(),
                occurs_at(b@, items_start as int, pack_native_token_items(items@)),
                forall|s: Seq<NativeToken>| native_tokens_valid(s) && #[trigger] occurs_at(b@, pos as int, pack_native_token_seq(s))
                    ==> (s.len() == n && items@ == s.take(i as int) && occurs_at(b@, p as int, pack_native_token_items(s.skip(i as int)))),
            decreases n - i,
        {
            proof {
                assert forall|s: Seq<NativeToken>| native_tokens_valid(s) && #[trigger] occurs_at(b@, pos as int, pack_native_token_seq(s))
                    implies occurs_at(b@, p as int, s[i as int].spec_pack()) && occurs_at(b@, p + 70, pack_native_token_items(s.skip(i + 1))) by {
                    let rest = s.skip(i as int);
                    assert(rest.drop_first() =~= s.skip(i + 1));
                    assert(rest[0] == s[i as int]);
                    s[i as int].lemma_pack_len();
                    lemma_occurs_split(b@, p as int, s[i as int].spec_pack(), pack_native_token_items(s.skip(i + 1)));
                }
            }
            let (t, q) = NativeToken::read(b, p)?;
            if t.amount.is_zero() {
                return Err(Error::NativeTokensNullAmount);
            }
            if i > 0 && !items[(i - 1) as usize].token_id.lt(&t.token_id) {
                proof {
                    assert forall|s: Seq<NativeToken>| native_tokens_valid(s) && #[trigger] occurs_at(b@, pos as int, pack_native_token_seq(s)) implies false by {
                        assert(s[i - 1] == items@[i - 1]);
                        assert(s[i - 1].token_id.spec_lt(s[i as int].token_id));
                    }
                }
                return Err(Error::NativeTokensNotUniqueSorted);
            }
            proof {
                lemma_native_token_items_push(items@, t);
                t.lemma_pack_len();
                lemma_occurs_join(b@, items_start as int, pack_native_token_items(items@), t.spec_pack());
                assert forall|a: int, c: int| 0 <= a < c < items@.len() + 1 implies (#[trigger] items@.push(t)[a].token_id).spec_lt(#[trigger] items@.push(t)[c].token_id) by {
                    if c == items@.len() && a < c - 1 {
                        TokenId::lemma_lt_order(items@[a].token_id, items@[c - 1].token_id, t.token_id);
                    }
                }
            }
            items.push(t);
            p = q;
            i = i + 1;
            proof {
                assert forall|s: Seq<NativeToken>| native_tokens_valid(s) && #[trigger] occurs_at(b@, pos as int, pack_native_token_seq(s))
                    implies items@ == s.take(i as int) by {
                    assert(items@ =~= s.take(i as int));
                }
            }
        }
        let r = NativeTokens { items };
        proof {
            lemma_occurs_join(b@, pos as int, seq![n], pack_native_token_items(items@));
            assert(pack_native_token_seq(items@) == seq![n] + pack_native_token_items(items@));
            assert forall|s: Seq<NativeToken>| native_tokens_valid(s) && #[trigger] occurs_at(b@, pos as int, pack_native_token_seq(s))
                implies r@ == s by {
                assert(s.take(n as int) =~= s);
            }
        }
        Ok((r, p))
    }
}

/// `x` stands in `v` before any other token of its identifier.
pub open spec fn first_of_token_id(v: Seq<NativeToken>, x: NativeToken) -> bool {
    exists|m: int| 0 <= m < v.len() && v[m] == x && forall|l: int| 0 <= l < m ==> (#[trigger] v[l]).token_id != x.token_id
}

pub proof fn lemma_first_exists(v: Seq<NativeToken>, k: int) -> (m: int)
    requires
        0 <= k < v.len(),
    ensures
        0 <= m <= k,
        v[m].token_id == v[k].token_id,
        forall|l: int| 0 <= l < m ==> (#[trigger] v[l]).token_id != v[k].token_id,
    decreases k,
{
    if exists|l: int| 0 <= l < k && (#[trigger] v[l]).token_id == v[k].token_id {
        let l = choose|l: int| 0 <= l < k && (#[trigger] v[l]).token_id == v[k].token_id;
        lemma_first_exists(v, l)
    } else {
        k
    }
}

/// The simple token scheme: tokens minted and melted so far, and the most that may circulate.
#[derive(Debug, Clone, Copy, PartialEq, Eq, Hash, Structural)]
pub struct SimpleTokenScheme {
    pub minted_tokens: U256,
    pub melted_tokens: U256,
    pub maximum_supply: U256,
}

impl SimpleTokenScheme {
    /// A positive maximum, no more melted than minted, and no more circulating than the maximum.
    pub open spec fn valid(self) -> bool {
        &&& self.maximum_supply.value() > 0
        &&& self.melted_tokens.value() <= self.minted_tokens.value()
        &&& self.minted_tokens.value() - self.melted_tokens.value() <= self.maximum_supply.value()
    }

    pub open spec fn spec_pack(self) -> Seq<u8> {
        self.minted_tokens.spec_pack() + self.melted_tokens.spec_pack() + self.maximum_supply.spec_pack()
    }

    pub fn new(minted_tokens: U256, melted_tokens: U256, maximum_supply: U256) -> (r: Result<SimpleTokenScheme, Error>)
        ensures
            match r {
                Ok(t) => t.valid() && t.minted_tokens == minted_tokens && t.melted_tokens == melted_tokens
                    && t.maximum_supply == maximum_supply,
                Err(e) => e == Error::InvalidFoundryOutputSupply && !(SimpleTokenScheme {
                    minted_tokens,
                    melted_tokens,
                    maximum_supply,
                }).valid(),
            },
    {
        let t = SimpleTokenScheme { minted_tokens, melted_tokens, maximum_supply };
        if t.verify() {
            Ok(t)
        } else {
            Err(Error::InvalidFoundryOutputSupply)
        }
    }

    pub fn verify(&self) -> (r: bool)
        ensures
            r == self.valid(),
    {
        if self.maximum_supply.is_zero() || self.minted_tokens.lt(&self.melted_tokens) {
            false
        } else {
            let circulating = self.minted_tokens.sub(&self.melted_tokens);
            !self.maximum_supply.lt(&circulating)
        }
    }

    pub fn minted_tokens(&self) -> (r: U256)
        ensures
            r == self.minted_tokens,
    {
        self.minted_tokens
    }

    pub fn melted_tokens(&self) -> (r: U256)
        ensures
            r == self.melted_tokens,
    {
        self.melted_tokens
    }

    pub fn maximum_supply(&self) -> (r: U256)
        ensures
            r == self.maximum_supply,
    {
        self.maximum_supply
    }
}

/// How a foundry controls the supply of its native token.
#[derive(Debug, Clone, Copy, PartialEq, Eq, Hash, Structural)]
pub enum TokenScheme {
    Simple(SimpleTokenScheme),
}

impl TokenScheme {
    pub open spec fn spec_simple(self) -> SimpleTokenScheme {
        match self {
            TokenScheme::Simple(t) => t,
        }
    }

    pub open spec fn valid(self) -> bool {
        self.spec_simple().valid()
    }

    /// The kind byte, then the scheme's fields.
    pub open spec fn spec_pack(self) -> Seq<u8> {
        seq![SIMPLE_TOKEN_SCHEME_KIND] + self.spec_simple().spec_pack()
    }

    pub proof fn lemma_pack_len(self)
        ensures
            self.spec_pack().len() == 97,
    {
        let t = self.spec_simple();
        t.minted_tokens.lemma_pack_len();
        t.melted_tokens.lemma_pack_len();
        t.maximum_supply.lemma_pack_len();
    }

    pub fn kind(&self) -> (r: u8)
        ensures
            r == SIMPLE_TOKEN_SCHEME_KIND,
    {
        SIMPLE_TOKEN_SCHEME_KIND
    }

    pub fn as_simple(&self) -> (r: SimpleTokenScheme)
        ensures
            r == self.spec_simple(),
    {
        match self {
            TokenScheme::Simple(t) => *t,
        }
    }

    pub fn verify(&self) -> (r: bool)
        ensures
            r == self.valid(),
    {
        self.as_simple().verify()
    }

    pub fn pack_into(&self, out: &mut Vec<u8>)
        ensures
            final(out)@ == old(out)@ + self.spec_pack(),
    {
        let t = self.as_simple();
        out.push(SIMPLE_TOKEN_SCHEME_KIND);
        t.minted_tokens.pack_into(out);
        t.melted_tokens.pack_into(out);
        t.maximum_supply.pack_into(out);
        assert(final(out)@ =~= old(out)@ + self.spec_pack());
    }

    /// Reads a valid token scheme.
    pub fn read(b: &[u8], pos: usize) -> (r: Result<(TokenScheme, usize), Error>)
        ensures
            match r {
                Ok((x, p)) => x.valid() && p == pos + 97 && occurs_at(b@, pos as int, x.spec_pack()),
                Err(_) => true,
            },
            forall|y: TokenScheme| y.valid() && #[trigger] occurs_at(b@, pos as int, y.spec_pack()) ==> r == Ok::<(TokenScheme, usize), Error>((y, (pos + 97) as usize)),
    {
        proof {
            assert forall|y: TokenScheme| #[trigger] occurs_at(b@, pos as int, y.spec_pack()) implies {
                &&& occurs_at(b@, pos as int, seq![SIMPLE_TOKEN_SCHEME_KIND])
                &&& occurs_at(b@, pos + 1, y.spec_simple().minted_tokens.spec_pack())
                &&& occurs_at(b@, pos + 33, y.spec_simple().melted_tokens.spec_pack())
                &&& occurs_at(b@, pos + 65, y.spec_simple().maximum_supply.spec_pack())
            } by {
                let t = y.spec_simple();
                t.minted_tokens.lemma_pack_len();
                t.melted_tokens.lemma_pack_len();
                t.maximum_supply.lemma_pack_len();
                let a = seq![SIMPLE_TOKEN_SCHEME_KIND] + t.minted_tokens.spec_pack();
                let c = a + t.melted_tokens.spec_pack();
                assert(y.spec_pack() =~= c + t.maximum_supply.spec_pack());
                lemma_occurs_split(b@, pos as int, c, t.maximum_supply.spec_pack());
                lemma_occurs_split(b@, pos as int, a, t.melted_tokens.spec_pack());
                lemma_occurs_split(b@, pos as int, seq![SIMPLE_TOKEN_SCHEME_KIND], t.minted_tokens.spec_pack());
            }
        }
        let (k, p) = read_u8(b, pos)?;
        if k != SIMPLE_TOKEN_SCHEME_KIND {
            return Err(Error::InvalidTokenSchemeKind(k));
        }
        let (minted_tokens, p) = U256::read(b, p)?;
        let (melted_tokens, p) = U256::read(b, p)?;
        let (maximum_supply, p) = U256::read(b, p)?;
        let t = SimpleTokenScheme { minted_tokens, melted_tokens, maximum_supply };
        if !t.verify() {
            return Err(Error::InvalidFoundryOutputSupply);
        }
        let r = TokenScheme::Simple(t);
        proof {
            minted_tokens.lemma_pack_len();
            melted_tokens.lemma_pack_len();
            maximum_supply.lemma_pack_len();
            let a = seq![k] + minted_tokens.spec_pack();
            let c = a + melted_tokens.spec_pack();
            lemma_occurs_join(b@, pos as int, seq![k], minted_tokens.spec_pack());
            lemma_occurs_join(b@, pos as int, a, melted_tokens.spec_pack());
            lemma_occurs_join(b@, pos as int, c, maximum_supply.spec_pack());
            assert(r.spec_pack() =~= c + maximum_supply.spec_pack());
        }
        Ok((r, p))
    }
}

} // verus!
