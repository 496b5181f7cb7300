use vstd::bytes::*;
use vstd::prelude::*;
use vstd::slice::{slice_subrange, slice_to_vec};

use crate::address::Address;
use crate::codec::{lemma_occurs_join, lemma_occurs_split, occurs_at, read_u16, read_u8, write_u16};
use crate::error::Error;
use crate::unlock_condition::{allows, flag_allows};

verus! {

pub const SENDER_FEATURE_KIND: u8 = 0;

pub const ISSUER_FEATURE_KIND: u8 = 1;

pub const METADATA_FEATURE_KIND: u8 = 2;

pub const TAG_FEATURE_KIND: u8 = 3;

pub const METADATA_LENGTH_MAX: u16 = 8192;

pub const TAG_LENGTH_MAX: u8 = 64;

/// An allow-list of feature kinds: bit `k` stands for kind `k`.
pub type FeatureFlags = u16;

pub const FEATURE_FLAG_SENDER: FeatureFlags = 1;

pub const FEATURE_FLAG_ISSUER: FeatureFlags = 2;

pub const FEATURE_FLAG_METADATA: FeatureFlags = 4;

pub const FEATURE_FLAG_TAG: FeatureFlags = 8;

/// What a feature holds.
pub enum FeatureView {
    Sender(Address),
    Issuer(Address),
    Metadata(Seq<u8>),
    Tag(Seq<u8>),
}

impl FeatureView {
    pub open spec fn kind(self) -> u8 {
        match self {
            FeatureView::Sender(_) => SENDER_FEATURE_KIND,
            FeatureView::Issuer(_) => ISSUER_FEATURE_KIND,
            FeatureView::Metadata(_) => METADATA_FEATURE_KIND,
            FeatureView::Tag(_) => TAG_FEATURE_KIND,
        }
    }

    /// Metadata holds 1 to 8192 bytes, a tag 1 to 64.
    pub open spec fn valid(self) -> bool {
        match self {
            FeatureView::Metadata(d) => 1 <= d.len() <= METADATA_LENGTH_MAX,
            FeatureView::Tag(d) => 1 <= d.len() <= TAG_LENGTH_MAX,
            _ => true,
        }
    }

    /// The encoding after the kind byte: an address, or a length prefix and the bytes.
    pub open spec fn body(self) -> Seq<u8> {
        match self {
            FeatureView::Sender(a) => a.spec_pack(),
            FeatureView::Issuer(a) => a.spec_pack(),
            FeatureView::Metadata(d) => spec_u16_to_le_bytes(d.len() as u16) + d,
            FeatureView::Tag(d) => seq![d.len() as u8] + d,
        }
    }

    pub open spec fn pack(self) -> Seq<u8> {
        seq![self.kind()] + self.body()
    }
}

fn same_bytes(a: &Vec<u8>, b: &Vec<u8>) -> (r: bool)
    ensures
        r == (a@ == b@),
{
    if a.len() != b.len() {
        return false;
    }
    let mut i: usize = 0;
    while i < a.len()
        invariant
            a@.len() == b@.len(),
            i <= a@.len(),
            forall|j: int| 0 <= j < i ==> a@[j] == b@[j],
        decreases a@.len() - i,
    {
        if a[i] != b[i] {
            return false;
        }
        i += 1;
    }
    assert(a@ =~= b@);
    true
}

/// Optional data attached to an output.
#[derive(Debug, Clone, PartialEq, Eq, Hash)]
pub enum Feature {
    /// The address that sent the output.
    Sender(Address),
    /// The address that issued a chain output.
    Issuer(Address),
    Metadata(Vec<u8>),
    Tag(Vec<u8>),
}

impl View for Feature {
    type V = FeatureView;

    open spec fn view(&self) -> FeatureView {
        match self {
            Feature::Sender(a) => FeatureView::Sender(*a),
            Feature::Issuer(a) => FeatureView::Issuer(*a),
            Feature::Metadata(d) => FeatureView::Metadata(d@),
            Feature::Tag(d) => FeatureView::Tag(d@),
        }
    }
}

impl Feature {
    pub fn sender(address: Address) -> (r: Feature)
        ensures
            r@ == FeatureView::Sender(address),
    {
        Feature::Sender(address)
    }

    pub fn issuer(address: Address) -> (r: Feature)
        ensures
            r@ == FeatureView::Issuer(address),
    {
        Feature::Issuer(address)
    }

    /// A metadata feature; it holds 1 to 8192 bytes.
    pub fn metadata(data: Vec<u8>) -> (r: Result<Feature, Error>)
        ensures
            match r {
                Ok(f) => f@ == FeatureView::Metadata(data@) && f@.valid(),
                Err(e) => !FeatureView::Metadata(data@).valid() && e is InvalidMetadataFeatureLength,
            },
    {
        if data.len() == 0 || data.len() > METADATA_LENGTH_MAX as usize {
            let n: u16 = if data.len() > u16::MAX as usize { u16::MAX } else { data.len() as u16 };
            Err(Error::InvalidMetadataFeatureLength(n))
        } else {
            Ok(Feature::Metadata(data))
        }
    }

    /// A tag feature; it holds 1 to 64 bytes.
    pub fn tag(data: Vec<u8>) -> (r: Result<Feature, Error>)
        ensures
            match r {
                Ok(f) => f@ == FeatureView::Tag(data@) && f@.valid(),
                Err(e) => !FeatureView::Tag(data@).valid() && e is InvalidTagFeatureLength,
            },
    {
        if data.len() == 0 || data.len() > TAG_LENGTH_MAX as usize {
            let n: u8 = if data.len() > u8::MAX as usize { u8::MAX } else { data.len() as u8 };
            Err(Error::InvalidTagFeatureLength(n))
        } else {
            Ok(Feature::Tag(data))
        }
    }

    pub fn duplicate(&self) -> (r: Feature)
        ensures
            r@ == self@,
    {
        match self {
            Feature::Sender(a) => Feature::Sender(*a),
            Feature::Issuer(a) => Feature::Issuer(*a),
            Feature::Metadata(d) => {
                let c = d.clone();
                assert(c@ =~= d@);
                Feature::Metadata(c)
            },
            Feature::Tag(d) => {
                let c = d.clone();
                assert(c@ =~= d@);
                Feature::Tag(c)
            },
        }
    }

    /// Whether the two features hold the same.
    pub fn same(&self, other: &Feature) -> (r: bool)
        ensures
            r == (self@ == other@),
    {
        match (self, other) {
            (Feature::Sender(a), Feature::Sender(b)) => a == b,
            (Feature::Issuer(a), Feature::Issuer(b)) => a == b,
            (Feature::Metadata(a), Feature::Metadata(b)) => same_bytes(a, b),
            (Feature::Tag(a), Feature::Tag(b)) => same_bytes(a, b),
            _ => false,
        }
    }

    pub fn kind(&self) -> (r: u8)
        ensures
            r == self@.kind(),
    {
        match self {
            Feature::Sender(_) => SENDER_FEATURE_KIND,
            Feature::Issuer(_) => ISSUER_FEATURE_KIND,
            Feature::Metadata(_) => METADATA_FEATURE_KIND,
            Feature::Tag(_) => TAG_FEATURE_KIND,
        }
    }

    pub fn pack_into(&self, out: &mut Vec<u8>)
        ensures
            final(out)@ == old(out)@ + self@.pack(),
    {
        out.push(self.kind());
        match self {
            Feature::Sender(a) => a.pack_into(out),
            Feature::Issuer(a) => a.pack_into(out),
            Feature::Metadata(d) => {
                write_u16(out, d.len() as u16);
                let mut c = d.clone();
                assert(c@ =~= d@);
                out.append(&mut c);
            },
            Feature::Tag(d) => {
                out.push(d.len() as u8);
                let mut c = d.clone();
                assert(c@ =~= d@);
                out.append(&mut c);
            },
        }
        assert(final(out)@ =~= old(out)@ + self@.pack());
    }

    /// Reads a valid feature.
    pub fn read(b: &[u8], pos: usize) -> (r: Result<(Feature, usize), Error>)
        ensures
            match r {
                Ok((x, p)) => x@.valid() && p == pos + x@.pack().len() && occurs_at(b@, pos as int, x@.pack()),
                Err(_) => true,
            },
            forall|y: FeatureView| y.valid() && #[trigger] occurs_at(b@, pos as int, y.pack()) ==> (r is Ok && r->Ok_0.0@ == y && r->Ok_0.1 == pos + y.pack().len()),
    {
        proof {
            lemma_auto_spec_u16_to_from_le_bytes();
            assert forall|y: FeatureView| #[trigger] occurs_at(b@, pos as int, y.pack()) implies {
                &&& occurs_at(b@, pos as int, seq![y.kind()])
                &&& occurs_at(b@, pos + 1, y.body())
            } by {
                lemma_occurs_split(b@, pos as int, seq![y.kind()], y.body());
            }
            assert forall|y: FeatureView| y.valid() && #[trigger] occurs_at(b@, pos as int, y.pack()) implies
                match y {
                    FeatureView::Metadata(d) => {
                        occurs_at(b@, pos + 1, spec_u16_to_le_bytes(d.len() as u16))
                            && occurs_at(b@, pos + 3, d)
                    },
                    FeatureView::Tag(d) => {
                        occurs_at(b@, pos + 1, seq![d.len() as u8])
                            && occurs_at(b@, pos + 2, d)
                    },
                    _ => true,
                } by {
                match y {
                    FeatureView::Metadata(d) => {
                        lemma_occurs_split(b@, pos + 1, spec_u16_to_le_bytes(d.len() as u16), d);
                    },
                    FeatureView::Tag(d) => {
                        lemma_occurs_split(b@, pos + 1, seq![d.len() as u8], d);
                    },
                    _ => {},
                }
            }
        }
        let (k, p) = read_u8(b, pos)?;
        let r = if k == SENDER_FEATURE_KIND {
            let (a, p) = Address::read(b, p)?;
            proof { a.lemma_pack_len(); }
            (Feature::Sender(a), p)
        } else if k == ISSUER_FEATURE_KIND {
            let (a, p) = Address::read(b, p)?;
            proof { a.lemma_pack_len(); }
            (Feature::Issuer(a), p)
        } else if k == METADATA_FEATURE_KIND {
            let (n, p) = read_u16(b, p)?;
            if n == 0 || n > METADATA_LENGTH_MAX {
                return Err(Error::InvalidMetadataFeatureLength(n));
            }
            if p > b.len() || (n as usize) > b.len() - p {
                return Err(Error::UnexpectedEnd);
            }
            let d = slice_to_vec(slice_subrange(b, p, p + n as usize));
            proof {
                lemma_occurs_join(b@, pos + 1, spec_u16_to_le_bytes(n), d@);
            }
            (Feature::Metadata(d), p + n as usize)
        } else if k == TAG_FEATURE_KIND {
            let (n, p) = read_u8(b, p)?;
            if n == 0 || n > TAG_LENGTH_MAX {
                return Err(Error::InvalidTagFeatureLength(n));
            }
            if p > b.len() || (n as usize) > b.len() - p {
                return Err(Error::UnexpectedEnd);
            }
            let d = slice_to_vec(slice_subrange(b, p, p + n as usize));
            proof {
                lemma_occurs_join(b@, pos + 1, seq![n], d@);
            }
            (Feature::Tag(d), p + n as usize)
        } else {
            return Err(Error::InvalidFeatureKind(k));
        };
        proof {
            let x = r.0@;
            lemma_occurs_join(b@, pos as int, seq![k], x.body());
            assert(x.pack() == seq![k] + x.body());
            assert forall|y: FeatureView| y.valid() && #[trigger] occurs_at(b@, pos as int, y.pack()) implies y == x by {
                assert(y.kind() == k);
                match y {
                    FeatureView::Sender(a) => a.lemma_pack_len(),
                    FeatureView::Issuer(a) => a.lemma_pack_len(),
                    FeatureView::Metadata(d) => {
                        assert(d =~= x->Metadata_0);
                    },
                    FeatureView::Tag(d) => {
                        assert(d =~= x->Tag_0);
                    },
                }
            }
        }
        Ok(r)
    }
}

/// The encodings of the features of `s`, one after the other.
pub open spec fn pack_feature_items(s: Seq<FeatureView>) -> Seq<u8>
    decreases s.len(),
{
    if s.len() == 0 {
        Seq::empty()
    } else {
        s[0].pack() + pack_feature_items(s.drop_first())
    }
}

/// The count byte, then each feature.
pub open spec fn pack_feature_seq(s: Seq<FeatureView>) -> Seq<u8> {
    seq![s.len() as u8] + pack_feature_items(s)
}

/// Strictly ascending by kind: no kind twice.
pub open spec fn features_sorted(s: Seq<FeatureView>) -> bool {
    forall|i: int, j: int| 0 <= i < j < s.len() ==> (#[trigger] s[i]).kind() < (#[trigger] s[j]).kind()
}

pub open spec fn has_feature_kind(s: Seq<FeatureView>, kind: u8) -> bool {
    exists|i: int| 0 <= i < s.len() && (#[trigger] s[i]).kind() == kind
}

/// Every feature of `s` has a kind that `flags` allows.
pub open spec fn features_allowed(s: Seq<FeatureView>, flags: u16) -> bool {
    forall|i: int| 0 <= i < s.len() ==> flag_allows(flags, (#[trigger] s[i]).kind())
}

/// `x` stands in `v` before any other feature of its kind.
pub open spec fn first_of_feature_kind(v: Seq<FeatureView>, x: FeatureView) -> bool {
    exists|m: int| 0 <= m < v.len() && v[m] == x && forall|l: int| 0 <= l < m ==> (#[trigger] v[l]).kind() != x.kind()
}

pub proof fn lemma_feature_items_push(s: Seq<FeatureView>, t: FeatureView)
    ensures
        pack_feature_items(s.push(t)) == pack_feature_items(s) + t.pack(),
    decreases s.len(),
{
    if s.len() == 0 {
        assert(s.push(t).drop_first() =~= Seq::<FeatureView>::empty());
        assert(s.push(t)[0] == t);
        assert(pack_feature_items(s.push(t).drop_first()) =~= Seq::<u8>::empty());
        assert(pack_feature_items(s) =~= Seq::<u8>::empty());
        assert(pack_feature_items(s.push(t)) =~= t.pack());
    } else {
        lemma_feature_items_push(s.drop_first(), t);
        assert(s.push(t).drop_first() =~= s.drop_first().push(t));
        assert(pack_feature_items(s.push(t)) =~= pack_feature_items(s) + t.pack());
    }
}

pub proof fn lemma_first_feature(v: Seq<FeatureView>, k: int) -> (m: int)
    requires
        0 <= k < v.len(),
    ensures
        0 <= m <= k,
        v[m].kind() == v[k].kind(),
        forall|l: int| 0 <= l < m ==> (#[trigger] v[l]).kind() != v[k].kind(),
    decreases k,
{
    if exists|l: int| 0 <= l < k && (#[trigger] v[l]).kind() == v[k].kind() {
        let l = choose|l: int| 0 <= l < k && (#[trigger] v[l]).kind() == v[k].kind();
        lemma_first_feature(v, l)
    } else {
        k
    }
}

/// `e` names the first feature of `s` whose kind `flags` does not allow: its index and kind.
pub open spec fn disallowed_feature_error(s: Seq<FeatureView>, flags: u16, e: Error) -> bool {
    exists|i: int| 0 <= i < s.len() && !flag_allows(flags, (#[trigger] s[i]).kind())
        && (forall|j: int| 0 <= j < i ==> flag_allows(flags, (#[trigger] s[j]).kind()))
        && e == (Error::DisallowedFeature { index: i as usize, kind: s[i].kind() })
}

/// Sorted, and every feature valid.
pub open spec fn features_valid(s: Seq<FeatureView>) -> bool {
    &&& features_sorted(s)
    &&& forall|i: int| 0 <= i < s.len() ==> (#[trigger] s[i]).valid()
}

pub proof fn lemma_features_short(s: Seq<FeatureView>)
    requires
        features_sorted(s),
    ensures
        s.len() <= 4,
        forall|i: int| 0 <= i < s.len() ==> (#[trigger] s[i]).kind() >= i,
    decreases s.len(),
{
    if s.len() > 0 {
        let t = s.drop_last();
        assert(features_sorted(t)) by {
            assert forall|i: int, j: int| 0 <= i < j < t.len() implies (#[trigger] t[i]).kind() < (#[trigger] t[j]).kind() by {
                assert(s[i] == t[i] && s[j] == t[j]);
            }
        }
        lemma_features_short(t);
        assert forall|i: int| 0 <= i < s.len() implies (#[trigger] s[i]).kind() >= i by {
            if i > 0 {
                assert(t[i - 1] == s[i - 1]);
                assert(s[i - 1].kind() < s[i].kind());
            }
        }
        assert(s[s.len() - 1].kind() <= 3);
    }
}

/// A set of features, at most one of each kind, in ascending order of kind.
#[derive(Debug, Clone, PartialEq, Eq, Hash)]
pub struct Features {
    items: Vec<Feature>,
}

pub open spec fn feature_views(v: Seq<Feature>) -> Seq<FeatureView> {
    v.map_values(|f: Feature| f@)
}

impl View for Features {
    type V = Seq<FeatureView>;

    closed spec fn view(&self) -> Seq<FeatureView> {
        feature_views(self.items@)
    }
}

impl Features {
    pub fn new() -> (r: Features)
        ensures
            r@ == Seq::<FeatureView>::empty(),
    {
        let r = Features { items: Vec::new() };
        assert(r@ =~= Seq::<FeatureView>::empty());
        r
    }

    pub fn len(&self) -> (r: usize)
        ensures
            r == self@.len(),
    {
        self.items.len()
    }

    pub fn is_empty(&self) -> (r: bool)
        ensures
            r == (self@.len() == 0),
    {
        self.items.len() == 0
    }

    pub fn get(&self, i: usize) -> (r: &Feature)
        requires
            i < self@.len(),
        ensures
            r@ == self@[i as int],
    {
        &self.items[i]
    }

    pub fn duplicate(&self) -> (r: Features)
        ensures
            r@ == self@,
    {
        let mut items: Vec<Feature> = Vec::new();
        let mut i: usize = 0;
        while i < self.items.len()
            invariant
                i <= self.items@.len(),
                feature_views(items@) == self@.take(i as int),
            decreases self.items@.len() - i,
        {
            let f = self.items[i].duplicate();
            let ghost before = items@;
            items.push(f);
            proof {
                assert(self@[i as int] == self.items@[i as int]@);
                assert(feature_views(items@) =~= feature_views(before).push(f@));
                assert(self@.take(i + 1) =~= self@.take(i as int).push(self@[i as int]));
            }
            i += 1;
        }
        assert(self@.take(i as int) =~= self@);
        Features { items }
    }

    pub fn to_vec(&self) -> (r: Vec<Feature>)
        ensures
            feature_views(r@) == self@,
    {
        let d = self.duplicate();
        d.items
    }

    /// Whether the two sets hold the same features.
    pub fn same(&self, other: &Features) -> (r: bool)
        ensures
            r == (self@ == other@),
    {
        if self.items.len() != other.items.len() {
            return false;
        }
        let mut i: usize = 0;
        while i < self.items.len()
            invariant
                self@.len() == other@.len(),
                self.items@.len() == self@.len(),
                i <= self@.len(),
                forall|j: int| 0 <= j < i ==> self@[j] == other@[j],
            decreases self@.len() - i,
        {
            assert(self@[i as int] == self.items@[i as int]@);
            assert(other@[i as int] == other.items@[i as int]@);
            if !self.items[i].same(&other.items[i]) {
                return false;
            }
            i += 1;
        }
        assert(self@ =~= other@);
        true
    }

    /// The feature of the kind, if there is one.
    pub fn find(&self, kind: u8) -> (r: Option<&Feature>)
        ensures
            match r {
                Some(f) => f@.kind() == kind && self@.contains(f@),
                None => !has_feature_kind(self@, kind),
            },
    {
        let mut i: usize = 0;
        while i < self.items.len()
            invariant
                i <= self.items@.len(),
                forall|j: int| 0 <= j < i ==> (#[trigger] self@[j]).kind() != kind,
            decreases self.items@.len() - i,
        {
            if self.items[i].kind() == kind {
                assert(self@[i as int] == self.items@[i as int]@);
                return Some(&self.items[i]);
            }
            i += 1;
        }
        None
    }

    pub fn sender(&self) -> (r: Option<&Feature>)
        ensures
            match r {
                Some(f) => f@ is Sender && self@.contains(f@),
                None => !has_feature_kind(self@, SENDER_FEATURE_KIND),
            },
    {
        self.find(SENDER_FEATURE_KIND)
    }

    pub fn issuer(&self) -> (r: Option<&Feature>)
        ensures
            match r {
                Some(f) => f@ is Issuer && self@.contains(f@),
                None => !has_feature_kind(self@, ISSUER_FEATURE_KIND),
            },
    {
        self.find(ISSUER_FEATURE_KIND)
    }

    pub fn metadata(&self) -> (r: Option<&Feature>)
        ensures
            match r {
                Some(f) => f@ is Metadata && self@.contains(f@),
                None => !has_feature_kind(self@, METADATA_FEATURE_KIND),
            },
    {
        self.find(METADATA_FEATURE_KIND)
    }

    pub fn tag(&self) -> (r: Option<&Feature>)
        ensures
            match r {
                Some(f) => f@ is Tag && self@.contains(f@),
                None => !has_feature_kind(self@, TAG_FEATURE_KIND),
            },
    {
        self.find(TAG_FEATURE_KIND)
    }

    /// Adds `t` unless a feature of its kind is there already.
    pub fn add(&mut self, t: Feature)
        requires
            features_sorted(old(self)@),
        ensures
            features_sorted(final(self)@),
            forall|x: FeatureView| #[trigger] final(self)@.contains(x) <==> (old(self)@.contains(x)
                || (x == t@ && !has_feature_kind(old(self)@, t@.kind()))),
    {
        self.insert(t, false);
    }

    /// Puts `t` in the place of the feature of its kind, or adds it.
    pub fn replace(&mut self, t: Feature)
        requires
            features_sorted(old(self)@),
        ensures
            features_sorted(final(self)@),
            forall|x: FeatureView| #[trigger] final(self)@.contains(x) <==> ((old(self)@.contains(x)
                && x.kind() != t@.kind()) || x == t@),
    {
        self.insert(t, true);
    }

    pub fn clear(&mut self)
        ensures
            final(self)@ == Seq::<FeatureView>::empty(),
    {
        self.items.clear();
        assert(self@ =~= Seq::<FeatureView>::empty());
    }

    fn insert(&mut self, t: Feature, overwrite: bool)
        requires
            features_sorted(old(self)@),
        ensures
            features_sorted(final(self)@),
            !overwrite ==> forall|x: FeatureView| #[trigger] final(self)@.contains(x) <==> (old(self)@.contains(x)
                || (x == t@ && !has_feature_kind(old(self)@, t@.kind()))),
            overwrite ==> forall|x: FeatureView| #[trigger] final(self)@.contains(x) <==> ((old(self)@.contains(x)
                && x.kind() != t@.kind()) || x == t@),
    {
        let ghost s = self@;
        let ghost tv = t@;
        let k = t.kind();
        let mut i: usize = 0;
        while i < self.items.len() && self.items[i].kind() < k
            invariant
                self@ == s,
                i <= s.len(),
                s.len() == self.items@.len(),
                forall|j: int| 0 <= j < i ==> (#[trigger] s[j]).kind() < k,
            decreases s.len() - i,
        {
            assert(s[i as int] == self.items@[i as int]@);
            i += 1;
        }
        if i < self.items.len() && self.items[i].kind() == k {
            assert(s[i as int] == self.items@[i as int]@);
            if overwrite {
                self.items.set(i, t);
                proof {
                    assert(self@ =~= s.update(i as int, tv));
                    assert forall|a: int, c: int| 0 <= a < c < self@.len() implies (#[trigger] self@[a]).kind() < (#[trigger] self@[c]).kind() by {
                        assert(s[a].kind() < s[c].kind());
                    }
                    assert forall|x: FeatureView| #[trigger] self@.contains(x) <==> ((s.contains(x)
                        && x.kind() != tv.kind()) || x == tv) by {
                        if self@.contains(x) {
                            let m = choose|m: int| 0 <= m < self@.len() && self@[m] == x;
                            if m != i {
                                assert(s[m] == x);
                                assert(s[m].kind() != s[i as int].kind());
                            }
                        }
                        if s.contains(x) && x.kind() != tv.kind() {
                            let m = choose|m: int| 0 <= m < s.len() && s[m] == x;
                            assert(self@[m] == x);
                        }
                        if x == tv {
                            assert(self@[i as int] == x);
                        }
                    }
                }
            } else {
                proof {
                    assert(has_feature_kind(s, tv.kind()));
                }
            }
        } else {
            proof {
                if i < s.len() {
                    assert(s[i as int] == self.items@[i as int]@);
                }
                assert forall|j: int| 0 <= j < s.len() implies (#[trigger] s[j]).kind() != k by {
                    if j > i {
                        assert(s[i as int].kind() < s[j].kind());
                    }
                }
            }
            self.items.insert(i, t);
            proof {
                let n = self@;
                assert(n =~= s.insert(i as int, tv));
                assert forall|a: int, c: int| 0 <= a < c < n.len() implies (#[trigger] n[a]).kind() < (#[trigger] n[c]).kind() by {
                    if c < i {
                        assert(s[a].kind() < s[c].kind());
                    } else if c == i {
                    } else if a < i {
                        if c - 1 > i {
                            assert(s[i as int].kind() < s[c - 1].kind());
                        }
                    } else if a == i {
                        if c - 1 > i {
                            assert(s[i as int].kind() < s[c - 1].kind());
                        }
                    } else {
                        assert(s[a - 1].kind() < s[c - 1].kind());
                    }
                }
                assert forall|x: FeatureView| #[trigger] n.contains(x) <==> (s.contains(x) || x == tv) by {
                    if n.contains(x) {
                        let m = choose|m: int| 0 <= m < n.len() && n[m] == x;
                        if m < i {
                            assert(s[m] == x);
                        } else if m > i {
                            assert(s[m - 1] == x);
                        }
                    }
                    if s.contains(x) {
                        let m = choose|m: int| 0 <= m < s.len() && s[m] == x;
                        if m < i {
                            assert(n[m] == x);
                        } else {
                            assert(n[m + 1] == x);
                        }
                    }
                    if x == tv {
                        assert(n[i as int] == x);
                    }
                }
                assert forall|x: FeatureView| s.contains(x) implies x.kind() != tv.kind() by {
                    let m = choose|m: int| 0 <= m < s.len() && s[m] == x;
                }
            }
        }
    }

    /// Holds the features of `v`, each the first of its kind there.
    pub fn from_vec(v: Vec<Feature>) -> (r: Features)
        ensures
            features_sorted(r@),
            forall|x: FeatureView| #[trigger] r@.contains(x) <==> first_of_feature_kind(feature_views(v@), x),
    {
        let ghost w = feature_views(v@);
        let mut rest = v;
        let mut r = Features::new();
        let ghost mut i: int = 0;
        while rest.len() > 0
            invariant
                0 <= i <= w.len(),
                feature_views(rest@) == w.skip(i),
                rest@.len() == w.len() - i,
                features_sorted(r@),
                forall|x: FeatureView| #[trigger] r@.contains(x) <==> first_of_feature_kind(w.take(i), x),
            decreases rest@.len(),
        {
            let ghost before = rest@;
            let t = rest.remove(0);
            proof {
                assert(rest@ == before.remove(0));
                assert(feature_views(before)[0] == t@);
                assert(w.skip(i)[0] == t@);
                assert forall|k: int| 0 <= k < rest@.len() implies feature_views(rest@)[k] == w.skip(i + 1)[k] by {
                    assert(rest@[k] == before[k + 1]);
                    assert(feature_views(before)[k + 1] == w.skip(i)[k + 1]);
                }
                assert(feature_views(rest@) =~= w.skip(i + 1));
                let p = w.take(i);
                assert(has_feature_kind(r@, t@.kind()) <==> has_feature_kind(p, t@.kind())) by {
                    if has_feature_kind(r@, t@.kind()) {
                        let k = choose|k: int| 0 <= k < r@.len() && (#[trigger] r@[k]).kind() == t@.kind();
                        assert(r@.contains(r@[k]));
                        let m = choose|m: int| 0 <= m < p.len() && p[m] == r@[k] && forall|l: int| 0 <= l < m ==> (#[trigger] p[l]).kind() != r@[k].kind();
                        assert(p[m].kind() == t@.kind());
                    }
                    if has_feature_kind(p, t@.kind()) {
                        let k = choose|k: int| 0 <= k < p.len() && (#[trigger] p[k]).kind() == t@.kind();
                        let m = lemma_first_feature(p, k);
                        assert(first_of_feature_kind(p, p[m]));
                        assert(r@.contains(p[m]));
                        let j = choose|j: int| 0 <= j < r@.len() && r@[j] == p[m];
                        assert(r@[j].kind() == t@.kind());
                    }
                }
            }
            let ghost tv = t@;
            r.add(t);
            proof {
                i = i + 1;
            }
            proof {
                let p = w.take(i - 1);
                let q = w.take(i);
                assert(q =~= p.push(tv));
                assert forall|x: FeatureView| #[trigger] r@.contains(x) <==> first_of_feature_kind(q, x) by {
                    if first_of_feature_kind(q, x) {
                        let m = choose|m: int| 0 <= m < q.len() && q[m] == x && forall|l: int| 0 <= l < m ==> (#[trigger] q[l]).kind() != x.kind();
                        if m < p.len() {
                            assert(p[m] == x);
                            assert(first_of_feature_kind(p, x));
                        } else {
                            assert(!has_feature_kind(p, tv.kind()));
                        }
                    }
                    if first_of_feature_kind(p, x) {
                        let m = choose|m: int| 0 <= m < p.len() && p[m] == x && forall|l: int| 0 <= l < m ==> (#[trigger] p[l]).kind() != x.kind();
                        assert(q[m] == x);
                    }
                    if x == tv && !has_feature_kind(p, tv.kind()) {
                        assert(q[p.len() as int] == x);
                        assert forall|l: int| 0 <= l < p.len() implies (#[trigger] q[l]).kind() != x.kind() by {
                            assert(q[l] == p[l]);
                        }
                    }
                }
            }
        }
        assert(w.take(i) =~= w);
        r
    }

    /// Whether every feature has a kind that `flags` allows; where not, the first that has not.
    pub fn verify_allowed(&self, flags: u16) -> (r: Result<(), Error>)
        ensures
            match r {
                Ok(()) => features_allowed(self@, flags),
                Err(e) => disallowed_feature_error(self@, flags, e),
            },
    {
        let mut i: usize = 0;
        while i < self.items.len()
            invariant
                i <= self.items@.len(),
                forall|j: int| 0 <= j < i ==> flag_allows(flags, (#[trigger] self@[j]).kind()),
            decreases self.items@.len() - i,
        {
            let k = self.items[i].kind();
            assert(self@[i as int] == self.items@[i as int]@);
            if !allows(flags, k) {
                proof {
                    let w = i as int;
                    assert(0 <= w < self@.len() && !flag_allows(flags, self@[w].kind()));
                }
                return Err(Error::DisallowedFeature { index: i, kind: k });
            }
            i += 1;
        }
        Ok(())
    }

    /// Whether every feature is valid.
    pub fn verify(&self) -> (r: bool)
        ensures
            r == forall|i: int| 0 <= i < self@.len() ==> (#[trigger] self@[i]).valid(),
    {
        let mut i: usize = 0;
        while i < self.items.len()
            invariant
                i <= self.items@.len(),
                forall|j: int| 0 <= j < i ==> (#[trigger] self@[j]).valid(),
            decreases self.items@.len() - i,
        {
            assert(self@[i as int] == self.items@[i as int]@);
            let ok = match &self.items[i] {
                Feature::Metadata(d) => d.len() >= 1 && d.len() <= METADATA_LENGTH_MAX as usize,
                Feature::Tag(d) => d.len() >= 1 && d.len() <= TAG_LENGTH_MAX as usize,
                _ => true,
            };
            if !ok {
                return false;
            }
            i += 1;
        }
        true
    }

    pub fn pack_into(&self, out: &mut Vec<u8>)
        ensures
            final(out)@ == old(out)@ + pack_feature_seq(self@),
    {
        out.push(self.items.len() as u8);
        let ghost start = out@;
        let mut i: usize = 0;
        while i < self.items.len()
            invariant
                i <= self.items@.len(),
                out@ == start + pack_feature_items(self@.take(i as int)),
            decreases self.items@.len() - i,
        {
            assert(self@[i as int] == self.items@[i as int]@);
            self.items[i].pack_into(out);
            proof {
                lemma_feature_items_push(self@.take(i as int), self@[i as int]);
                assert(self@.take(i + 1) =~= self@.take(i as int).push(self@[i as int]));
            }
            i += 1;
        }
        assert(self@.take(i as int) =~= self@);
        assert(final(out)@ =~= old(out)@ + pack_feature_seq(self@));
    }

    pub fn read(b: &[u8], pos: usize) -> (r: Result<(Features, usize), Error>)
        ensures
            match r {
                Ok((x, p)) => features_valid(x@) && p == pos + pack_feature_seq(x@).len()
                    && occurs_at(b@, pos as int, pack_feature_seq(x@)),
                Err(_) => true,
            },
            forall|s: Seq<FeatureView>| features_valid(s) && #[trigger] occurs_at(b@, pos as int, pack_feature_seq(s))
                ==> (r is Ok && r->Ok_0.0@ == s && r->Ok_0.1 == pos + pack_feature_seq(s).len()),
    {
        proof {
            assert forall|s: Seq<FeatureView>| features_valid(s) && #[trigger] occurs_at(b@, pos as int, pack_feature_seq(s)) implies {
                &&& occurs_at(b@, pos as int, seq![s.len() as u8])
                &&& occurs_at(b@, pos + 1, pack_feature_items(s))
                &&& s.len() <= 4
            } by {
                lemma_occurs_split(b@, pos as int, seq![s.len() as u8], pack_feature_items(s));
                lemma_features_short(s);
            }
        }
        let (n, items_start) = read_u8(b, pos)?;
        let mut items: Vec<Feature> = Vec::new();
        let mut p = items_start;
        let mut i: u8 = 0;
        proof {
            assert(feature_views(items@) =~= Seq::<FeatureView>::empty());
            assert(pack_feature_items(feature_views(items@)) =~= Seq::<u8>::empty());
            assert(b@.subrange(items_start as int, items_start as int) =~= Seq::<u8>::empty());
            assert forall|s: Seq<FeatureView>| features_valid(s) && #[trigger] occurs_at(b@, pos as int, pack_feature_seq(s))
                implies (s.len() == n && feature_views(items@) == s.take(0) && occurs_at(b@, p as int, pack_feature_items(s.skip(0)))) by {
                assert(occurs_at(b@, pos as int, seq![s.len() as u8]));
                assert(feature_views(items@) =~= s.take(0));
                assert(s.skip(0) =~= s);
            }
        }
        while i < n
            invariant
                items_start == pos + 1,
                i <= n,
                items@.len() == i,
                features_valid(feature_views(items@)),
                p == items_start + pack_feature_items(feature_views(items@)).len(),
                occurs_at(b@, items_start as int, pack_feature_items(feature_views(items@))),
                forall|s: Seq<FeatureView>| features_valid(s) && #[trigger] occurs_at(b@, pos as int, pack_feature_seq(s))
                    ==> (s.len() == n && feature_views(items@) == s.take(i as int) && occurs_at(b@, p as int, pack_feature_items(s.skip(i as int)))),
            decreases n - i,
        {
            let ghost iv = feature_views(items@);
            proof {
                assert forall|s: Seq<FeatureView>| features_valid(s) && #[trigger] occurs_at(b@, pos as int, pack_feature_seq(s))
                    implies occurs_at(b@, p as int, s[i as int].pack()) && occurs_at(b@, p + s[i as int].pack().len(), pack_feature_items(s.skip(i + 1))) by {
                    let rest = s.skip(i as int);
                    assert(rest.drop_first() =~= s.skip(i + 1));
                    assert(rest[0] == s[i as int]);
                    lemma_occurs_split(b@, p as int, s[i as int].pack(), pack_feature_items(s.skip(i + 1)));
                }
            }
            let (t, q) = Feature::read(b, p)?;
            if i > 0 && items[(i - 1) as usize].kind() >= t.kind() {
                proof {
                    assert(iv[i - 1] == items@[i - 1]@);
                    assert forall|s: Seq<FeatureView>| features_valid(s) && #[trigger] occurs_at(b@, pos as int, pack_feature_seq(s)) implies false by {
                        assert(s[i - 1] == iv[i - 1]);
                        assert(s[i - 1].kind() < s[i as int].kind());
                    }
                }
                return Err(Error::FeaturesNotUniqueSorted);
            }
            let ghost tv = t@;
            proof {
                if i > 0 {
                    assert(iv[i - 1] == items@[i - 1]@);
                }
                lemma_feature_items_push(iv, tv);
                lemma_occurs_join(b@, items_start as int, pack_feature_items(iv), tv.pack());
                assert forall|a: int, c: int| 0 <= a < c < iv.len() + 1 implies (#[trigger] iv.push(tv)[a]).kind() < (#[trigger] iv.push(tv)[c]).kind() by {
                    if c == iv.len() && a < c - 1 {
                        assert(iv[a].kind() < iv[c - 1].kind());
                    }
                }
            }
            items.push(t);
            p = q;
            i = i + 1;
            proof {
                assert(feature_views(items@) =~= iv.push(tv));
                assert forall|s: Seq<FeatureView>| features_valid(s) && #[trigger] occurs_at(b@, pos as int, pack_feature_seq(s))
                    implies feature_views(items@) == s.take(i as int) by {
                    assert(feature_views(items@) =~= s.take(i as int));
                }
            }
        }
        let r = Features { items };
        proof {
            lemma_occurs_join(b@, pos as int, seq![n], pack_feature_items(r@));
            lemma_features_short(r@);
            assert(pack_feature_seq(r@) == seq![n] + pack_feature_items(r@));
            assert forall|s: Seq<FeatureView>| features_valid(s) && #[trigger] occurs_at(b@, pos as int, pack_feature_seq(s))
                implies r@ == s by {
                assert(s.take(n as int) =~= s);
            }
        }
        Ok((r, p))
    }
}

} // verus!
