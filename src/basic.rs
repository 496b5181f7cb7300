use vstd::bytes::*;
use vstd::prelude::*;

use crate::address::Address;
use crate::codec::{lemma_occurs_join, lemma_occurs_split, lemma_occurs_whole, occurs_at, read_u64, write_u64};
use crate::error::Error;
use crate::ids::Id32;
use crate::feature::{
    disallowed_feature_error,
    feature_views, features_allowed, features_sorted, features_valid, first_of_feature_kind, pack_feature_seq, Feature,
    FeatureView, Features, FEATURE_FLAG_METADATA, FEATURE_FLAG_SENDER, FEATURE_FLAG_TAG,
};
use crate::rent::{amount_within_supply, rent_cost_capped, OutputBuilderAmount, RentStructure, ValidationParams};
use crate::token::{
    native_tokens_error,
    first_of_token_id, has_token_id, native_tokens_sorted, native_tokens_valid, pack_native_token_seq, NativeToken,
    NativeTokens,
};
use crate::unlock_condition::{
    disallowed_unlock_condition_error,
    find_unlock_condition, first_of_unlock_condition_kind, has_unlock_condition_kind, pack_unlock_condition_seq, unlock_conditions_allowed,
    unlock_conditions_sorted, unlock_condition_added, unlock_condition_replaced, UnlockCondition, UnlockConditions, ADDRESS_UNLOCK_CONDITION_KIND, EXPIRATION_UNLOCK_CONDITION_KIND,
    UNLOCK_CONDITION_FLAG_ADDRESS, UNLOCK_CONDITION_FLAG_EXPIRATION, UNLOCK_CONDITION_FLAG_STORAGE_DEPOSIT_RETURN,
    UNLOCK_CONDITION_FLAG_TIMELOCK,
};

verus! {

pub const BASIC_OUTPUT_KIND: u8 = 3;

/// Address, storage deposit return, timelock and expiration.
pub const BASIC_ALLOWED_UNLOCK_CONDITIONS: u16 = UNLOCK_CONDITION_FLAG_ADDRESS
    | UNLOCK_CONDITION_FLAG_STORAGE_DEPOSIT_RETURN | UNLOCK_CONDITION_FLAG_TIMELOCK | UNLOCK_CONDITION_FLAG_EXPIRATION;

/// Sender, metadata and tag.
pub const BASIC_ALLOWED_FEATURES: u16 = FEATURE_FLAG_SENDER | FEATURE_FLAG_METADATA | FEATURE_FLAG_TAG;

/// What a basic output holds.
pub struct BasicOutputView {
    pub amount: u64,
    pub mana: u64,
    pub native_tokens: Seq<NativeToken>,
    pub unlock_conditions: Seq<UnlockCondition>,
    pub features: Seq<FeatureView>,
}

impl BasicOutputView {
    /// Amount, mana, native tokens, unlock conditions, features.
    pub open spec fn pack(self) -> Seq<u8> {
        spec_u64_to_le_bytes(self.amount) + spec_u64_to_le_bytes(self.mana) + pack_native_token_seq(
            self.native_tokens,
        ) + pack_unlock_condition_seq(self.unlock_conditions) + pack_feature_seq(self.features)
    }

    /// What every basic output is: valid native tokens, conditions and features, each set sorted.
    pub open spec fn well_formed(self) -> bool {
        &&& native_tokens_valid(self.native_tokens)
        &&& unlock_conditions_sorted(self.unlock_conditions)
        &&& features_valid(self.features)
    }

    /// The rules on conditions and features: an address condition, and only allowed kinds.
    pub open spec fn rules_hold(self) -> bool {
        &&& has_unlock_condition_kind(self.unlock_conditions, ADDRESS_UNLOCK_CONDITION_KIND)
        &&& unlock_conditions_allowed(self.unlock_conditions, BASIC_ALLOWED_UNLOCK_CONDITIONS)
        &&& features_allowed(self.features, BASIC_ALLOWED_FEATURES)
    }

    /// `bytes` are the encoding of this output, which unpacking accepts: with `verify_with`,
    /// under the rules and within that token supply.
    pub open spec fn decodes_from(self, bytes: Seq<u8>, verify_with: Option<u64>) -> bool {
        &&& self.well_formed()
        &&& verify_with is Some ==> self.rules_hold() && amount_within_supply(self.amount, verify_with)
        &&& self.pack() == bytes
    }

    /// The storage deposit of the output: its kind byte and its packed fields, weighted.
    pub open spec fn rent_cost(self, rs: RentStructure) -> u64 {
        rent_cost_capped(rs, 1 + self.pack().len())
    }

    pub open spec fn with_amount(self, amount: u64) -> BasicOutputView {
        BasicOutputView { amount, ..self }
    }
}

/// The encoding's length does not depend on the amount.
pub proof fn lemma_rent_ignores_amount(v: BasicOutputView, amount: u64, rs: RentStructure)
    ensures
        v.with_amount(amount).rent_cost(rs) == v.rent_cost(rs),
{
    lemma_auto_spec_u64_to_from_le_bytes();
}

/// An output that holds tokens, native tokens, conditions and features, and no chain state.
#[derive(Debug, Clone, PartialEq, Eq, Hash)]
pub struct BasicOutput {
    amount: u64,
    mana: u64,
    native_tokens: NativeTokens,
    unlock_conditions: UnlockConditions,
    features: Features,
}

impl View for BasicOutput {
    type V = BasicOutputView;

    closed spec fn view(&self) -> BasicOutputView {
        BasicOutputView {
            amount: self.amount,
            mana: self.mana,
            native_tokens: self.native_tokens@,
            unlock_conditions: self.unlock_conditions@,
            features: self.features@,
        }
    }
}

impl BasicOutput {
    pub fn build_with_amount(amount: u64) -> (r: BasicOutputBuilder)
        ensures
            r.wf(),
            r@ == BasicOutputBuilderView::empty(OutputBuilderAmount::Amount(amount)),
    {
        BasicOutputBuilder::new_with_amount(amount)
    }

    pub fn build_with_minimum_storage_deposit(rent_structure: RentStructure) -> (r: BasicOutputBuilder)
        ensures
            r.wf(),
            r@ == BasicOutputBuilderView::empty(OutputBuilderAmount::MinimumStorageDeposit(rent_structure)),
    {
        BasicOutputBuilder::new_with_minimum_storage_deposit(rent_structure)
    }

    pub fn amount(&self) -> (r: u64)
        ensures
            r == self@.amount,
    {
        self.amount
    }

    pub fn mana(&self) -> (r: u64)
        ensures
            r == self@.mana,
    {
        self.mana
    }

    pub fn native_tokens(&self) -> (r: &NativeTokens)
        ensures
            r@ == self@.native_tokens,
    {
        &self.native_tokens
    }

    pub fn unlock_conditions(&self) -> (r: &UnlockConditions)
        ensures
            r@ == self@.unlock_conditions,
    {
        &self.unlock_conditions
    }

    pub fn features(&self) -> (r: &Features)
        ensures
            r@ == self@.features,
    {
        &self.features
    }

    /// The address of the address unlock condition, which a finished output has.
    pub fn address(&self) -> (r: Address)
        requires
            has_unlock_condition_kind(self@.unlock_conditions, ADDRESS_UNLOCK_CONDITION_KIND),
        ensures
            self@.unlock_conditions.contains(UnlockCondition::Address(r)),
            r == self.spec_address(),
    {
        match self.unlock_conditions.address() {
            Some(a) => a,
            None => vstd::pervasive::unreached(),
        }
    }

    /// The address to which storage deposits may be returned: that of an output with an
    /// address unlock condition alone, no native tokens and no features.
    pub fn simple_deposit_address(&self) -> (r: Option<Address>)
        ensures
            match r {
                Some(a) => self@.unlock_conditions == seq![UnlockCondition::Address(a)]
                    && self@.native_tokens.len() == 0 && self@.features.len() == 0,
                None => !(self@.unlock_conditions.len() == 1 && self@.unlock_conditions[0] is Address
                    && self@.native_tokens.len() == 0 && self@.features.len() == 0),
            },
    {
        if self.unlock_conditions.len() == 1 && self.native_tokens.is_empty() && self.features.is_empty() {
            match self.unlock_conditions.get(0) {
                UnlockCondition::Address(a) => {
                    assert(self@.unlock_conditions =~= seq![UnlockCondition::Address(a)]);
                    Some(a)
                },
                _ => None,
            }
        } else {
            None
        }
    }

    /// The address that must unlock the output at `milestone_timestamp`: that of the address
    /// condition, or the return address of an expiration condition whose time has come.
    pub fn locked_address(&self, milestone_timestamp: u32) -> (r: Address)
        requires
            has_unlock_condition_kind(self@.unlock_conditions, ADDRESS_UNLOCK_CONDITION_KIND),
        ensures
            r == match find_unlock_condition(self@.unlock_conditions, EXPIRATION_UNLOCK_CONDITION_KIND) {
                Some(UnlockCondition::Expiration { return_address, timestamp }) => if milestone_timestamp >= timestamp {
                    return_address
                } else {
                    self.spec_address()
                },
                _ => self.spec_address(),
            },
    {
        let a = self.address();
        self.unlock_conditions.locked_address(a, milestone_timestamp)
    }

    /// The address of the address unlock condition.
    pub open spec fn spec_address(&self) -> Address {
        match find_unlock_condition(self@.unlock_conditions, ADDRESS_UNLOCK_CONDITION_KIND) {
            Some(UnlockCondition::Address(a)) => a,
            _ => Address::Ed25519(Id32 { lo: 0, hi: 0 }),
        }
    }

    /// The storage deposit that this output needs.
    pub fn rent_cost(&self, rent_structure: &RentStructure) -> (r: u64)
        ensures
            r == self@.rent_cost(*rent_structure),
    {
        let bytes = self.pack_to_vec();
        rent_structure.cost_of_output(bytes.len())
    }

    pub fn pack_to_vec(&self) -> (r: Vec<u8>)
        ensures
            r@ == self@.pack(),
    {
        let mut out: Vec<u8> = Vec::new();
        write_u64(&mut out, self.amount);
        write_u64(&mut out, self.mana);
        self.native_tokens.pack_into(&mut out);
        self.unlock_conditions.pack_into(&mut out);
        self.features.pack_into(&mut out);
        assert(out@ =~= self@.pack());
        out
    }

    /// Reads a basic output that takes all of `bytes`; with `verify_with` the amount is
    /// checked against that token supply, and the conditions and features against the rules.
    pub fn unpack(bytes: &[u8], verify_with: Option<u64>) -> (r: Result<BasicOutput, Error>)
        ensures
            match r {
                Ok(o) => o@.decodes_from(bytes@, verify_with),
                Err(_) => true,
            },
            forall|v: BasicOutputView| #[trigger] v.decodes_from(bytes@, verify_with) ==> (r is Ok && r->Ok_0@ == v),
    {
        let b = bytes;
        proof {
            lemma_auto_spec_u64_to_from_le_bytes();
            assert forall|v: BasicOutputView| #[trigger] v.decodes_from(bytes@, verify_with) implies {
                &&& occurs_at(b@, 0, spec_u64_to_le_bytes(v.amount))
                &&& occurs_at(b@, 8, spec_u64_to_le_bytes(v.mana))
                &&& occurs_at(b@, 16, pack_native_token_seq(v.native_tokens))
                &&& occurs_at(b@, 16 + pack_native_token_seq(v.native_tokens).len() as int, pack_unlock_condition_seq(v.unlock_conditions))
                &&& occurs_at(b@, 16 + pack_native_token_seq(v.native_tokens).len() + pack_unlock_condition_seq(v.unlock_conditions).len() as int, pack_feature_seq(v.features))
                &&& b@.len() == 16 + pack_native_token_seq(v.native_tokens).len() + pack_unlock_condition_seq(v.unlock_conditions).len() + pack_feature_seq(v.features).len()
            } by {
                let a1 = spec_u64_to_le_bytes(v.amount);
                let a2 = a1 + spec_u64_to_le_bytes(v.mana);
                let a3 = a2 + pack_native_token_seq(v.native_tokens);
                let a4 = a3 + pack_unlock_condition_seq(v.unlock_conditions);
                lemma_occurs_whole(b@);
                lemma_occurs_split(b@, 0, a4, pack_feature_seq(v.features));
                lemma_occurs_split(b@, 0, a3, pack_unlock_condition_seq(v.unlock_conditions));
                lemma_occurs_split(b@, 0, a2, pack_native_token_seq(v.native_tokens));
                lemma_occurs_split(b@, 0, a1, spec_u64_to_le_bytes(v.mana));
            }
        }
        let (amount, p) = read_u64(b, 0)?;
        if let Some(ts) = verify_with {
            if amount > ts {
                return Err(Error::InvalidOutputAmount(amount));
            }
        }
        let (mana, p) = read_u64(b, p)?;
        let (native_tokens, after_tokens) = NativeTokens::read(b, p)?;
        let (unlock_conditions, after_conditions) = UnlockConditions::read(b, after_tokens)?;
        if verify_with.is_some() {
            verify_unlock_conditions(&unlock_conditions)?;
        }
        let (features, end) = Features::read(b, after_conditions)?;
        if verify_with.is_some() {
            features.verify_allowed(BASIC_ALLOWED_FEATURES)?;
        }
        if end != b.len() {
            return Err(Error::TrailingBytes);
        }
        let o = BasicOutput { amount, mana, native_tokens, unlock_conditions, features };
        proof {
            let a1 = spec_u64_to_le_bytes(amount);
            let a2 = a1 + spec_u64_to_le_bytes(mana);
            let a3 = a2 + pack_native_token_seq(native_tokens@);
            let a4 = a3 + pack_unlock_condition_seq(unlock_conditions@);
            lemma_occurs_join(b@, 0, a1, spec_u64_to_le_bytes(mana));
            lemma_occurs_join(b@, 0, a2, pack_native_token_seq(native_tokens@));
            lemma_occurs_join(b@, 0, a3, pack_unlock_condition_seq(unlock_conditions@));
            lemma_occurs_join(b@, 0, a4, pack_feature_seq(features@));
            assert(b@.subrange(0, b@.len() as int) =~= b@);
            assert(o@.pack() =~= a4 + pack_feature_seq(features@));
            assert forall|v: BasicOutputView| #[trigger] v.decodes_from(bytes@, verify_with) implies v == o@ by {
                assert(v.native_tokens == native_tokens@);
            }
        }
        Ok(o)
    }

    /// Reads a basic output and checks it against the protocol parameters.
    pub fn unpack_verified(bytes: &[u8], params: &crate::rent::ProtocolParameters) -> (r: Result<BasicOutput, Error>)
        ensures
            match r {
                Ok(o) => o@.decodes_from(bytes@, Some(params.token_supply)),
                Err(_) => true,
            },
            forall|v: BasicOutputView| #[trigger] v.decodes_from(bytes@, Some(params.token_supply)) ==> (r is Ok
                && r->Ok_0@ == v),
    {
        BasicOutput::unpack(bytes, Some(params.token_supply))
    }

    /// Reads a basic output, trusting that it was checked before.
    pub fn unpack_unverified(bytes: &[u8]) -> (r: Result<BasicOutput, Error>)
        ensures
            match r {
                Ok(o) => o@.decodes_from(bytes@, None),
                Err(_) => true,
            },
            forall|v: BasicOutputView| #[trigger] v.decodes_from(bytes@, None) ==> (r is Ok && r->Ok_0@ == v),
    {
        BasicOutput::unpack(bytes, None)
    }
}

/// What a basic output builder holds.
pub struct BasicOutputBuilderView {
    pub amount: OutputBuilderAmount,
    pub mana: u64,
    pub native_tokens: Seq<NativeToken>,
    pub unlock_conditions: Seq<UnlockCondition>,
    pub features: Seq<FeatureView>,
}

impl BasicOutputBuilderView {
    pub open spec fn empty(amount: OutputBuilderAmount) -> BasicOutputBuilderView {
        BasicOutputBuilderView {
            amount,
            mana: 0,
            native_tokens: Seq::empty(),
            unlock_conditions: Seq::empty(),
            features: Seq::empty(),
        }
    }

    /// Each set sorted, with at most one element of each key.
    pub open spec fn sorted(self) -> bool {
        &&& native_tokens_sorted(self.native_tokens)
        &&& unlock_conditions_sorted(self.unlock_conditions)
        &&& features_sorted(self.features)
    }

    /// The output of these fields with the given amount.
    pub open spec fn output_with(self, amount: u64) -> BasicOutputView {
        BasicOutputView {
            amount,
            mana: self.mana,
            native_tokens: self.native_tokens,
            unlock_conditions: self.unlock_conditions,
            features: self.features,
        }
    }

    /// The storage deposit of the output these fields make.
    pub open spec fn rent_cost(self, rs: RentStructure) -> u64 {
        self.output_with(0).rent_cost(rs)
    }

    /// The amount the finished output gets: the fixed one, or its storage deposit.
    pub open spec fn finished_amount(self) -> u64 {
        match self.amount {
            OutputBuilderAmount::Amount(a) => a,
            OutputBuilderAmount::MinimumStorageDeposit(rs) => self.rent_cost(rs),
        }
    }

    /// The output that `finish` makes.
    pub open spec fn output(self) -> BasicOutputView {
        self.output_with(self.finished_amount())
    }

    /// `finish` succeeds.
    pub open spec fn can_finish(self) -> bool {
        self.output().well_formed() && self.output().rules_hold()
    }

    /// The error `finish_with_params` gives where it fails: that of `finish`, or an amount
    /// above the token supply.
    pub open spec fn finish_with_params_error(self, token_supply: Option<u64>, e: Error) -> bool {
        ||| !self.can_finish() && self.finish_error(e)
        ||| self.can_finish() && !amount_within_supply(self.finished_amount(), token_supply) && e
            == Error::InvalidOutputAmount(self.finished_amount())
    }

    /// The error `finish` gives where it fails, in the order of its checks.
    pub open spec fn finish_error(self, e: Error) -> bool {
        if !has_unlock_condition_kind(self.unlock_conditions, ADDRESS_UNLOCK_CONDITION_KIND) {
            e == Error::MissingAddressUnlockCondition
        } else if !unlock_conditions_allowed(self.unlock_conditions, BASIC_ALLOWED_UNLOCK_CONDITIONS) {
            disallowed_unlock_condition_error(self.unlock_conditions, BASIC_ALLOWED_UNLOCK_CONDITIONS, e)
        } else if !(forall|i: int| 0 <= i < self.features.len() ==> (#[trigger] self.features[i]).valid()) {
            e == Error::InvalidFeatureLength
        } else if !features_allowed(self.features, BASIC_ALLOWED_FEATURES) {
            disallowed_feature_error(self.features, BASIC_ALLOWED_FEATURES, e)
        } else {
            !native_tokens_valid(self.native_tokens) && native_tokens_error(self.native_tokens, e)
        }
    }
}

/// Builds a basic output: fields are set one by one, then checked together by `finish`.
#[derive(Debug, Clone)]
pub struct BasicOutputBuilder {
    amount: OutputBuilderAmount,
    mana: u64,
    native_tokens: NativeTokens,
    unlock_conditions: UnlockConditions,
    features: Features,
}

impl View for BasicOutputBuilder {
    type V = BasicOutputBuilderView;

    closed spec fn view(&self) -> BasicOutputBuilderView {
        BasicOutputBuilderView {
            amount: self.amount,
            mana: self.mana,
            native_tokens: self.native_tokens@,
            unlock_conditions: self.unlock_conditions@,
            features: self.features@,
        }
    }
}

impl BasicOutputBuilder {
    pub open spec fn wf(&self) -> bool {
        self@.sorted()
    }

    fn new(amount: OutputBuilderAmount) -> (r: BasicOutputBuilder)
        ensures
            r.wf(),
            r@ == BasicOutputBuilderView::empty(amount),
    {
        BasicOutputBuilder {
            amount,
            mana: 0,
            native_tokens: NativeTokens::new(),
            unlock_conditions: UnlockConditions::new(),
            features: Features::new(),
        }
    }

    pub fn new_with_amount(amount: u64) -> (r: BasicOutputBuilder)
        ensures
            r.wf(),
            r@ == BasicOutputBuilderView::empty(OutputBuilderAmount::Amount(amount)),
    {
        BasicOutputBuilder::new(OutputBuilderAmount::Amount(amount))
    }

    /// A builder whose output will get the storage deposit it needs as its amount.
    pub fn new_with_minimum_storage_deposit(rent_structure: RentStructure) -> (r: BasicOutputBuilder)
        ensures
            r.wf(),
            r@ == BasicOutputBuilderView::empty(OutputBuilderAmount::MinimumStorageDeposit(rent_structure)),
    {
        BasicOutputBuilder::new(OutputBuilderAmount::MinimumStorageDeposit(rent_structure))
    }

    /// A builder that holds the fields of `output`, its amount fixed.
    pub fn from_output(output: &BasicOutput) -> (r: BasicOutputBuilder)
        requires
            output@.well_formed(),
        ensures
            r.wf(),
            r@ == (BasicOutputBuilderView {
                amount: OutputBuilderAmount::Amount(output@.amount),
                mana: output@.mana,
                native_tokens: output@.native_tokens,
                unlock_conditions: output@.unlock_conditions,
                features: output@.features,
            }),
    {
        BasicOutputBuilder {
            amount: OutputBuilderAmount::Amount(output.amount),
            mana: output.mana,
            native_tokens: output.native_tokens.duplicate(),
            unlock_conditions: output.unlock_conditions.duplicate(),
            features: output.features.duplicate(),
        }
    }

    pub fn amount(&self) -> (r: OutputBuilderAmount)
        ensures
            r == self@.amount,
    {
        self.amount
    }

    pub fn mana(&self) -> (r: u64)
        ensures
            r == self@.mana,
    {
        self.mana
    }

    pub fn native_tokens(&self) -> (r: &NativeTokens)
        ensures
            r@ == self@.native_tokens,
    {
        &self.native_tokens
    }

    pub fn unlock_conditions(&self) -> (r: &UnlockConditions)
        ensures
            r@ == self@.unlock_conditions,
    {
        &self.unlock_conditions
    }

    pub fn features(&self) -> (r: &Features)
        ensures
            r@ == self@.features,
    {
        &self.features
    }

    pub fn with_amount(self, amount: u64) -> (r: BasicOutputBuilder)
        requires
            self.wf(),
        ensures
            r.wf(),
            r@ == (BasicOutputBuilderView { amount: OutputBuilderAmount::Amount(amount), ..self@ }),
    {
        let mut b = self;
        b.amount = OutputBuilderAmount::Amount(amount);
        b
    }

    pub fn with_minimum_storage_deposit(self, rent_structure: RentStructure) -> (r: BasicOutputBuilder)
        requires
            self.wf(),
        ensures
            r.wf(),
            r@ == (BasicOutputBuilderView {
                amount: OutputBuilderAmount::MinimumStorageDeposit(rent_structure),
                ..self@
            }),
    {
        let mut b = self;
        b.amount = OutputBuilderAmount::MinimumStorageDeposit(rent_structure);
        b
    }

    pub fn with_mana(self, mana: u64) -> (r: BasicOutputBuilder)
        requires
            self.wf(),
        ensures
            r.wf(),
            r@ == (BasicOutputBuilderView { mana, ..self@ }),
    {
        let mut b = self;
        b.mana = mana;
        b
    }

    /// Adds a native token, unless one of its identifier is there already.
    pub fn add_native_token(self, native_token: NativeToken) -> (r: BasicOutputBuilder)
        requires
            self.wf(),
        ensures
            r.wf(),
            r@ == (BasicOutputBuilderView { native_tokens: r@.native_tokens, ..self@ }),
            forall|x: NativeToken| #[trigger] r@.native_tokens.contains(x) <==> (self@.native_tokens.contains(x)
                || (x == native_token && !has_token_id(self@.native_tokens, native_token.token_id))),
    {
        let mut b = self;
        b.native_tokens.add(native_token);
        b
    }

    /// Sets the native tokens: the first of each identifier in `native_tokens`.
    pub fn with_native_tokens(self, native_tokens: Vec<NativeToken>) -> (r: BasicOutputBuilder)
        requires
            self.wf(),
        ensures
            r.wf(),
            r@ == (BasicOutputBuilderView { native_tokens: r@.native_tokens, ..self@ }),
            forall|x: NativeToken| #[trigger] r@.native_tokens.contains(x) <==> first_of_token_id(native_tokens@, x),
    {
        let mut b = self;
        b.native_tokens = NativeTokens::from_vec(native_tokens);
        b
    }

    /// Adds an unlock condition, unless one of its kind is there already.
    pub fn add_unlock_condition(self, unlock_condition: UnlockCondition) -> (r: BasicOutputBuilder)
        requires
            self.wf(),
        ensures
            r.wf(),
            r@ == (BasicOutputBuilderView { unlock_conditions: r@.unlock_conditions, ..self@ }),
            unlock_condition_added(self@.unlock_conditions, unlock_condition, r@.unlock_conditions),
            has_unlock_condition_kind(self@.unlock_conditions, unlock_condition.spec_kind()) ==> r@.unlock_conditions
                == self@.unlock_conditions,
            !has_unlock_condition_kind(self@.unlock_conditions, unlock_condition.spec_kind()) ==> exists|i: int|
                0 <= i <= self@.unlock_conditions.len() && #[trigger] self@.unlock_conditions.insert(i, unlock_condition)
                == r@.unlock_conditions,
    {
        let mut b = self;
        b.unlock_conditions.add(unlock_condition);
        b
    }

    /// Sets the unlock conditions: the first of each kind in `unlock_conditions`.
    pub fn with_unlock_conditions(self, unlock_conditions: Vec<UnlockCondition>) -> (r: BasicOutputBuilder)
        requires
            self.wf(),
        ensures
            r.wf(),
            r@ == (BasicOutputBuilderView { unlock_conditions: r@.unlock_conditions, ..self@ }),
            forall|x: UnlockCondition| #[trigger] r@.unlock_conditions.contains(x) <==> first_of_unlock_condition_kind(
                unlock_conditions@,
                x,
            ),
    {
        let mut b = self;
        b.unlock_conditions = UnlockConditions::from_vec(unlock_conditions);
        b
    }

    /// Puts an unlock condition in the place of the one of its kind, or adds it.
    pub fn replace_unlock_condition(self, unlock_condition: UnlockCondition) -> (r: BasicOutputBuilder)
        requires
            self.wf(),
        ensures
            r.wf(),
            r@ == (BasicOutputBuilderView { unlock_conditions: r@.unlock_conditions, ..self@ }),
            unlock_condition_replaced(self@.unlock_conditions, unlock_condition, r@.unlock_conditions),
            has_unlock_condition_kind(self@.unlock_conditions, unlock_condition.spec_kind()) ==> exists|i: int|
                0 <= i < self@.unlock_conditions.len() && self@.unlock_conditions[i].spec_kind() == unlock_condition.spec_kind()
                && #[trigger] self@.unlock_conditions.update(i, unlock_condition) == r@.unlock_conditions,
            !has_unlock_condition_kind(self@.unlock_conditions, unlock_condition.spec_kind()) ==> exists|i: int|
                0 <= i <= self@.unlock_conditions.len() && #[trigger] self@.unlock_conditions.insert(i, unlock_condition)
                == r@.unlock_conditions,
    {
        let mut b = self;
        b.unlock_conditions.replace(unlock_condition);
        b
    }

    pub fn clear_unlock_conditions(self) -> (r: BasicOutputBuilder)
        requires
            self.wf(),
        ensures
            r.wf(),
            r@ == (BasicOutputBuilderView { unlock_conditions: Seq::empty(), ..self@ }),
    {
        let mut b = self;
        b.unlock_conditions.clear();
        b
    }

    /// Adds a feature, unless one of its kind is there already.
    pub fn add_feature(self, feature: Feature) -> (r: BasicOutputBuilder)
        requires
            self.wf(),
        ensures
            r.wf(),
            r@ == (BasicOutputBuilderView { features: r@.features, ..self@ }),
            forall|x: FeatureView| #[trigger] r@.features.contains(x) <==> (self@.features.contains(x)
                || (x == feature@ && !crate::feature::has_feature_kind(self@.features, feature@.kind()))),
    {
        let mut b = self;
        b.features.add(feature);
        b
    }

    /// Sets the features: the first of each kind in `features`.
    pub fn with_features(self, features: Vec<Feature>) -> (r: BasicOutputBuilder)
        requires
            self.wf(),
        ensures
            r.wf(),
            r@ == (BasicOutputBuilderView { features: r@.features, ..self@ }),
            forall|x: FeatureView| #[trigger] r@.features.contains(x) <==> first_of_feature_kind(feature_views(features@), x),
    {
        let mut b = self;
        b.features = Features::from_vec(features);
        b
    }

    /// Puts a feature in the place of the one of its kind, or adds it.
    pub fn replace_feature(self, feature: Feature) -> (r: BasicOutputBuilder)
        requires
            self.wf(),
        ensures
            r.wf(),
            r@ == (BasicOutputBuilderView { features: r@.features, ..self@ }),
            forall|x: FeatureView| #[trigger] r@.features.contains(x) <==> ((self@.features.contains(x)
                && x.kind() != feature@.kind()) || x == feature@),
    {
        let mut b = self;
        b.features.replace(feature);
        b
    }

    pub fn clear_features(self) -> (r: BasicOutputBuilder)
        requires
            self.wf(),
        ensures
            r.wf(),
            r@ == (BasicOutputBuilderView { features: Seq::empty(), ..self@ }),
    {
        let mut b = self;
        b.features.clear();
        b
    }

    /// The storage deposit of the output these fields make.
    pub fn rent_cost(&self, rent_structure: &RentStructure) -> (r: u64)
        ensures
            r == self@.rent_cost(*rent_structure),
    {
        let mut out: Vec<u8> = Vec::new();
        write_u64(&mut out, 0);
        write_u64(&mut out, self.mana);
        self.native_tokens.pack_into(&mut out);
        self.unlock_conditions.pack_into(&mut out);
        self.features.pack_into(&mut out);
        assert(out@ =~= self@.output_with(0).pack());
        rent_structure.cost_of_output(out.len())
    }

    /// Where a fixed amount falls short of the storage deposit, adds a storage deposit return
    /// condition to `return_address` (or replaces the one there) over the difference, and
    /// raises the amount to the storage deposit; the deposit is taken once the condition is in.
    pub fn with_sufficient_storage_deposit(self, return_address: Address, rent_structure: RentStructure, token_supply: u64) -> (r:
        Result<BasicOutputBuilder, Error>)
        requires
            self.wf(),
        ensures
            match self@.amount {
                OutputBuilderAmount::MinimumStorageDeposit(_) => r is Ok && r->Ok_0@ == self@ && r->Ok_0.wf(),
                OutputBuilderAmount::Amount(a) => if a >= self@.rent_cost(rent_structure) {
                    r is Ok && r->Ok_0@ == self@ && r->Ok_0.wf()
                } else {
                    exists|added: Seq<UnlockCondition>| {
                        let temporary = UnlockCondition::StorageDepositReturn { return_address, amount: 0 };
                        let deposit = (BasicOutputBuilderView { unlock_conditions: added, ..self@ }).rent_cost(rent_structure);
                        &&& #[trigger] unlock_conditions_sorted(added)
                        &&& forall|x: UnlockCondition| #[trigger] added.contains(x) <==> (self@.unlock_conditions.contains(x)
                            || (x == temporary && !has_unlock_condition_kind(self@.unlock_conditions, temporary.spec_kind())))
                        &&& a < deposit
                        &&& match r {
                            Ok(b) => {
                                &&& deposit - a <= token_supply
                                &&& b.wf()
                                &&& b@ == (BasicOutputBuilderView {
                                    amount: OutputBuilderAmount::Amount(deposit),
                                    unlock_conditions: b@.unlock_conditions,
                                    ..self@
                                })
                                &&& b@.rent_cost(rent_structure) == deposit
                                &&& forall|x: UnlockCondition| #[trigger] b@.unlock_conditions.contains(x) <==> ((added.contains(x)
                                    && x.spec_kind() != temporary.spec_kind()) || x == (UnlockCondition::StorageDepositReturn {
                                    return_address,
                                    amount: (deposit - a) as u64,
                                }))
                            },
                            Err(e) => deposit - a > token_supply && e == Error::InvalidStorageDepositAmount((deposit - a) as u64),
                        }
                    }
                },
            },
    {
        match self.amount {
            OutputBuilderAmount::MinimumStorageDeposit(_) => Ok(self),
            OutputBuilderAmount::Amount(amount) => {
                let rent_cost = self.rent_cost(&rent_structure);
                if amount >= rent_cost {
                    return Ok(self);
                }
                let temporary = match UnlockCondition::new_storage_deposit_return(return_address, 0, token_supply) {
                    Ok(u) => u,
                    Err(e) => return Err(e),
                };
                let ghost before = self@;
                let b = self.add_unlock_condition(temporary);
                let ghost added = b@.unlock_conditions;
                let deposit = b.rent_cost(&rent_structure);
                proof {
                    let u0 = before.unlock_conditions;
                    lemma_auto_spec_u64_to_from_le_bytes();
                    if !has_unlock_condition_kind(u0, temporary.spec_kind()) {
                        let i = choose|i: int| 0 <= i <= u0.len() && #[trigger] u0.insert(i, temporary) == added;
                        crate::unlock_condition::lemma_unlock_condition_items_insert_len(u0, i, temporary);
                        assert(before.output_with(0).pack().len() <= b@.output_with(0).pack().len());
                        crate::rent::lemma_rent_monotonic(rent_structure, (1 + before.output_with(0).pack().len()) as nat, (1 + b@.output_with(0).pack().len()) as nat);
                    } else {
                        assert(b@ == before);
                    }
                }
                let sdr = UnlockCondition::new_storage_deposit_return(return_address, deposit - amount, token_supply)?;
                let r = b.with_amount(deposit).replace_unlock_condition(sdr);
                proof {
                    lemma_auto_spec_u64_to_from_le_bytes();
                    assert(has_unlock_condition_kind(added, temporary.spec_kind())) by {
                        if !has_unlock_condition_kind(before.unlock_conditions, temporary.spec_kind()) {
                            assert(added.contains(temporary));
                            let k = choose|k: int| 0 <= k < added.len() && added[k] == temporary;
                        } else {
                        }
                    }
                    let i = choose|i: int| 0 <= i < added.len() && added[i].spec_kind() == sdr.spec_kind()
                        && #[trigger] added.update(i, sdr) == r@.unlock_conditions;
                    added[i].lemma_pack_len();
                    crate::unlock_condition::lemma_unlock_condition_items_update_len(added, i, sdr);
                    match added[i] {
                        UnlockCondition::StorageDepositReturn { return_address: ra, .. } => {
                            ra.lemma_pack_len();
                            return_address.lemma_pack_len();
                        },
                        _ => {},
                    }
                    assert(r@.output_with(0).pack().len() == b@.output_with(0).pack().len());
                }
                Ok(r)
            },
        }
    }

    /// Checks the fields together and makes the output; under a minimum storage deposit the
    /// amount is the storage deposit of the output.
    pub fn finish(self) -> (r: Result<BasicOutput, Error>)
        requires
            self.wf(),
        ensures
            match r {
                Ok(o) => self@.can_finish() && o@ == self@.output(),
                Err(e) => !self@.can_finish() && self@.finish_error(e),
            },
            match (self@.amount, r) {
                (OutputBuilderAmount::MinimumStorageDeposit(rs), Ok(o)) => o@.amount == o@.rent_cost(rs),
                _ => true,
            },
    {
        proof {
            if let OutputBuilderAmount::MinimumStorageDeposit(rs) = self@.amount {
                lemma_basic_minimum_storage_deposit(self@, rs);
            }
        }
        let amount = match self.amount {
            OutputBuilderAmount::Amount(amount) => amount,
            OutputBuilderAmount::MinimumStorageDeposit(rent_structure) => self.rent_cost(&rent_structure),
        };
        verify_unlock_conditions(&self.unlock_conditions)?;
        if !self.features.verify() {
            return Err(Error::InvalidFeatureLength);
        }
        self.features.verify_allowed(BASIC_ALLOWED_FEATURES)?;
        self.native_tokens.verify()?;
        Ok(BasicOutput {
            amount,
            mana: self.mana,
            native_tokens: self.native_tokens,
            unlock_conditions: self.unlock_conditions,
            features: self.features,
        })
    }

    /// As `finish`, and the amount must not exceed the token supply, where one is given.
    pub fn finish_with_params(self, params: ValidationParams) -> (r: Result<BasicOutput, Error>)
        requires
            self.wf(),
        ensures
            match r {
                Ok(o) => self@.can_finish() && amount_within_supply(self@.finished_amount(), params.token_supply)
                    && o@ == self@.output(),
                Err(e) => self@.finish_with_params_error(params.token_supply, e),
            },
    {
        let output = self.finish()?;
        if let Some(token_supply) = params.token_supply {
            if output.amount > token_supply {
                return Err(Error::InvalidOutputAmount(output.amount));
            }
        }
        Ok(output)
    }

    /// As `finish_with_params`, giving the output as an [`Output`](crate::output::Output).
    pub fn finish_output(self, params: ValidationParams) -> (r: Result<crate::output::Output, Error>)
        requires
            self.wf(),
        ensures
            match r {
                Ok(o) => self@.can_finish() && amount_within_supply(self@.finished_amount(), params.token_supply)
                    && o@ == crate::output::OutputView::Basic(self@.output()),
                Err(e) => self@.finish_with_params_error(params.token_supply, e),
            },
    {
        Ok(crate::output::Output::Basic(self.finish_with_params(params)?))
    }
}

/// A finished basic output, packed, is what verified unpacking accepts against any token
/// supply that `finish_with_params` accepted, and it unpacks to that same output.
pub proof fn lemma_basic_round_trip(b: BasicOutputBuilderView, token_supply: u64)
    requires
        b.sorted(),
        b.can_finish(),
        b.finished_amount() <= token_supply,
    ensures
        b.output().decodes_from(b.output().pack(), Some(token_supply)),
        b.output().decodes_from(b.output().pack(), None),
{
}

/// Under a minimum storage deposit, the finished output's amount is its own storage deposit.
pub proof fn lemma_basic_minimum_storage_deposit(b: BasicOutputBuilderView, rs: RentStructure)
    requires
        b.amount == OutputBuilderAmount::MinimumStorageDeposit(rs),
    ensures
        b.output().amount == b.output().rent_cost(rs),
{
    lemma_rent_ignores_amount(b.output_with(0), b.finished_amount(), rs);
    assert(b.output_with(0).with_amount(b.finished_amount()) == b.output());
}

/// Without unlock conditions, finishing fails for want of an address unlock condition.
pub proof fn lemma_basic_needs_address(b: BasicOutputBuilderView, e: Error)
    requires
        b.unlock_conditions.len() == 0,
        b.finish_error(e),
    ensures
        !b.can_finish(),
        e == Error::MissingAddressUnlockCondition,
{
}

/// An address unlock condition must be there, and only allowed kinds.
fn verify_unlock_conditions(unlock_conditions: &UnlockConditions) -> (r: Result<(), Error>)
    ensures
        match r {
            Ok(()) => has_unlock_condition_kind(unlock_conditions@, ADDRESS_UNLOCK_CONDITION_KIND)
                && unlock_conditions_allowed(unlock_conditions@, BASIC_ALLOWED_UNLOCK_CONDITIONS),
            Err(e) => if !has_unlock_condition_kind(unlock_conditions@, ADDRESS_UNLOCK_CONDITION_KIND) {
                e == Error::MissingAddressUnlockCondition
            } else {
                !unlock_conditions_allowed(unlock_conditions@, BASIC_ALLOWED_UNLOCK_CONDITIONS)
                    && disallowed_unlock_condition_error(unlock_conditions@, BASIC_ALLOWED_UNLOCK_CONDITIONS, e)
            },
        },
{
    if unlock_conditions.address().is_none() {
        Err(Error::MissingAddressUnlockCondition)
    } else {
        unlock_conditions.verify_allowed(BASIC_ALLOWED_UNLOCK_CONDITIONS)
    }
}

} // verus!
