use vstd::bytes::*;
use vstd::prelude::*;

use crate::codec::{lemma_occurs_join, lemma_occurs_split, lemma_occurs_whole, occurs_at, read_u32, read_u64, write_u32, write_u64};
use crate::error::{Error, StateTransitionError};
use crate::feature::{
    disallowed_feature_error,
    feature_views, features_allowed, features_sorted, features_valid, first_of_feature_kind, has_feature_kind,
    pack_feature_seq, Feature, FeatureView, Features, FEATURE_FLAG_METADATA,
};
use crate::ids::{AliasId, Id32};
use crate::rent::{amount_within_supply, rent_cost_capped, OutputBuilderAmount, RentStructure, ValidationParams};
use crate::token::{
    native_tokens_error,
    first_of_token_id, has_token_id, native_tokens_sorted, native_tokens_valid, pack_native_token_seq, FoundryId,
    NativeToken, NativeTokens, TokenId, TokenScheme, SIMPLE_TOKEN_SCHEME_KIND,
};
use crate::u256::U256;
use crate::unlock_condition::{
    disallowed_unlock_condition_error,
    find_unlock_condition, first_of_unlock_condition_kind, has_unlock_condition_kind, pack_unlock_condition_seq,
    unlock_condition_added, unlock_condition_replaced, unlock_conditions_allowed, unlock_conditions_sorted, UnlockCondition,
    UnlockConditions, IMMUTABLE_ALIAS_ADDRESS_UNLOCK_CONDITION_KIND, UNLOCK_CONDITION_FLAG_IMMUTABLE_ALIAS_ADDRESS,
};

verus! {

pub const FOUNDRY_OUTPUT_KIND: u8 = 5;

/// The immutable alias address alone.
pub const FOUNDRY_ALLOWED_UNLOCK_CONDITIONS: u16 = UNLOCK_CONDITION_FLAG_IMMUTABLE_ALIAS_ADDRESS;

/// Metadata.
pub const FOUNDRY_ALLOWED_FEATURES: u16 = FEATURE_FLAG_METADATA;

/// Metadata.
pub const FOUNDRY_ALLOWED_IMMUTABLE_FEATURES: u16 = FEATURE_FLAG_METADATA;

/// What a foundry output holds.
pub struct FoundryOutputView {
    pub amount: u64,
    pub native_tokens: Seq<NativeToken>,
    pub serial_number: u32,
    pub token_scheme: TokenScheme,
    pub unlock_conditions: Seq<UnlockCondition>,
    pub features: Seq<FeatureView>,
    pub immutable_features: Seq<FeatureView>,
}

impl FoundryOutputView {
    /// Amount, native tokens, serial number, token scheme, unlock conditions, features,
    /// immutable features.
    pub open spec fn pack(self) -> Seq<u8> {
        spec_u64_to_le_bytes(self.amount) + pack_native_token_seq(self.native_tokens) + spec_u32_to_le_bytes(
            self.serial_number,
        ) + self.token_scheme.spec_pack() + pack_unlock_condition_seq(self.unlock_conditions) + pack_feature_seq(
            self.features,
        ) + pack_feature_seq(self.immutable_features)
    }

    /// What every foundry output is: valid parts, each set sorted.
    pub open spec fn well_formed(self) -> bool {
        &&& native_tokens_valid(self.native_tokens)
        &&& self.token_scheme.valid()
        &&& unlock_conditions_sorted(self.unlock_conditions)
        &&& features_valid(self.features)
        &&& features_valid(self.immutable_features)
    }

    /// An immutable alias address condition, and only allowed kinds.
    pub open spec fn rules_hold(self) -> bool {
        &&& has_unlock_condition_kind(self.unlock_conditions, IMMUTABLE_ALIAS_ADDRESS_UNLOCK_CONDITION_KIND)
        &&& unlock_conditions_allowed(self.unlock_conditions, FOUNDRY_ALLOWED_UNLOCK_CONDITIONS)
        &&& features_allowed(self.features, FOUNDRY_ALLOWED_FEATURES)
        &&& features_allowed(self.immutable_features, FOUNDRY_ALLOWED_IMMUTABLE_FEATURES)
    }

    pub open spec fn decodes_from(self, bytes: Seq<u8>, verify_with: Option<u64>) -> bool {
        &&& self.well_formed()
        &&& verify_with is Some ==> self.rules_hold() && amount_within_supply(self.amount, verify_with)
        &&& self.pack() == bytes
    }

    pub open spec fn rent_cost(self, rs: RentStructure) -> u64 {
        rent_cost_capped(rs, 1 + self.pack().len())
    }

    /// The alias that controls the foundry.
    pub open spec fn alias_id(self) -> AliasId {
        match find_unlock_condition(self.unlock_conditions, IMMUTABLE_ALIAS_ADDRESS_UNLOCK_CONDITION_KIND) {
            Some(UnlockCondition::ImmutableAliasAddress(a)) => a,
            _ => Id32 { lo: 0, hi: 0 },
        }
    }

    /// The identifier of the foundry and of its native token.
    pub open spec fn token_id(self) -> TokenId {
        TokenId { alias_id: self.alias_id(), serial_number: self.serial_number, token_scheme_kind: SIMPLE_TOKEN_SCHEME_KIND }
    }
}

pub proof fn lemma_foundry_rent_ignores_amount(v: FoundryOutputView, amount: u64, rs: RentStructure)
    ensures
        (FoundryOutputView { amount, ..v }).rent_cost(rs) == v.rent_cost(rs),
{
    lemma_auto_spec_u64_to_from_le_bytes();
}

/// An output that controls the supply of one native token, held by an alias.
#[derive(Debug, Clone, PartialEq, Eq, Hash)]
pub struct FoundryOutput {
    amount: u64,
    native_tokens: NativeTokens,
    serial_number: u32,
    token_scheme: TokenScheme,
    unlock_conditions: UnlockConditions,
    features: Features,
    immutable_features: Features,
}

impl View for FoundryOutput {
    type V = FoundryOutputView;

    closed spec fn view(&self) -> FoundryOutputView {
        FoundryOutputView {
            amount: self.amount,
            native_tokens: self.native_tokens@,
            serial_number: self.serial_number,
            token_scheme: self.token_scheme,
            unlock_conditions: self.unlock_conditions@,
            features: self.features@,
            immutable_features: self.immutable_features@,
        }
    }
}

impl FoundryOutput {
    pub fn build_with_amount(amount: u64, serial_number: u32, token_scheme: TokenScheme) -> (r: FoundryOutputBuilder)
        ensures
            r.wf(),
            r@ == FoundryOutputBuilderView::empty(OutputBuilderAmount::Amount(amount), serial_number, token_scheme),
    {
        FoundryOutputBuilder::new_with_amount(amount, serial_number, token_scheme)
    }

    pub fn build_with_minimum_storage_deposit(rent_structure: RentStructure, serial_number: u32, token_scheme: TokenScheme) -> (r:
        FoundryOutputBuilder)
        ensures
            r.wf(),
            r@ == FoundryOutputBuilderView::empty(
                OutputBuilderAmount::MinimumStorageDeposit(rent_structure),
                serial_number,
                token_scheme,
            ),
    {
        FoundryOutputBuilder::new_with_minimum_storage_deposit(rent_structure, serial_number, token_scheme)
    }

    pub fn amount(&self) -> (r: u64)
        ensures
            r == self@.amount,
    {
        self.amount
    }

    pub fn native_tokens(&self) -> (r: &NativeTokens)
        ensures
            r@ == self@.native_tokens,
    {
        &self.native_tokens
    }

    pub fn serial_number(&self) -> (r: u32)
        ensures
            r == self@.serial_number,
    {
        self.serial_number
    }

    pub fn token_scheme(&self) -> (r: TokenScheme)
        ensures
            r == self@.token_scheme,
    {
        self.token_scheme
    }

    pub fn unlock_conditions(&self) -> (r: &UnlockConditions)
        ensures
            r@ == self@.unlock_conditions,
    {
        &self.unlock_conditions
    }

    pub fn features(&self) -> (r: &Features)
        ensures
            r@ == self@.features,
    {
        &self.features
    }

    pub fn immutable_features(&self) -> (r: &Features)
        ensures
            r@ == self@.immutable_features,
    {
        &self.immutable_features
    }

    /// The alias that controls the foundry, which a finished output has.
    pub fn alias_address(&self) -> (r: AliasId)
        requires
            has_unlock_condition_kind(self@.unlock_conditions, IMMUTABLE_ALIAS_ADDRESS_UNLOCK_CONDITION_KIND),
        ensures
            r == self@.alias_id(),
    {
        match self.unlock_conditions.immutable_alias_address() {
            Some(a) => a,
            None => vstd::pervasive::unreached(),
        }
    }

    /// The identifier of the foundry: its alias, serial number and token scheme kind.
    pub fn id(&self) -> (r: FoundryId)
        requires
            has_unlock_condition_kind(self@.unlock_conditions, IMMUTABLE_ALIAS_ADDRESS_UNLOCK_CONDITION_KIND),
        ensures
            r == self@.token_id(),
    {
        TokenId::build(&self.alias_address(), self.serial_number, self.token_scheme.kind())
    }

    /// The identifier of the native token the foundry controls, which is the foundry's.
    pub fn token_id(&self) -> (r: TokenId)
        requires
            has_unlock_condition_kind(self@.unlock_conditions, IMMUTABLE_ALIAS_ADDRESS_UNLOCK_CONDITION_KIND),
        ensures
            r == self@.token_id(),
    {
        self.id()
    }

    pub fn chain_id(&self) -> (r: crate::output::ChainId)
        requires
            has_unlock_condition_kind(self@.unlock_conditions, IMMUTABLE_ALIAS_ADDRESS_UNLOCK_CONDITION_KIND),
        ensures
            r == crate::output::ChainId::Foundry(self@.token_id()),
    {
        crate::output::ChainId::Foundry(self.id())
    }

    pub fn rent_cost(&self, rent_structure: &RentStructure) -> (r: u64)
        ensures
            r == self@.rent_cost(*rent_structure),
    {
        let bytes = self.pack_to_vec();
        rent_structure.cost_of_output(bytes.len())
    }

    pub fn pack_to_vec(&self) -> (r: Vec<u8>)
        ensures
            r@ == self@.pack(),
    {
        let mut out: Vec<u8> = Vec::new();
        write_u64(&mut out, self.amount);
        self.native_tokens.pack_into(&mut out);
        write_u32(&mut out, self.serial_number);
        self.token_scheme.pack_into(&mut out);
        self.unlock_conditions.pack_into(&mut out);
        self.features.pack_into(&mut out);
        self.immutable_features.pack_into(&mut out);
        assert(out@ =~= self@.pack());
        out
    }

    /// Reads a foundry output that takes all of `bytes`; with `verify_with` the amount is
    /// checked against that token supply, and the conditions and features against the rules.
    pub fn unpack(bytes: &[u8], verify_with: Option<u64>) -> (r: Result<FoundryOutput, Error>)
        ensures
            match r {
                Ok(o) => o@.decodes_from(bytes@, verify_with),
                Err(_) => true,
            },
            forall|v: FoundryOutputView| #[trigger] v.decodes_from(bytes@, verify_with) ==> (r is Ok && r->Ok_0@ == v),
    {
        let b = bytes;
        proof {
            lemma_auto_spec_u64_to_from_le_bytes();
            lemma_auto_spec_u32_to_from_le_bytes();
            assert forall|v: FoundryOutputView| #[trigger] v.decodes_from(bytes@, verify_with) implies {
                let l1 = 8 + pack_native_token_seq(v.native_tokens).len();
                let l2 = l1 + 4;
                let l3 = l2 + v.token_scheme.spec_pack().len();
                let l4 = l3 + pack_unlock_condition_seq(v.unlock_conditions).len();
                let l5 = l4 + pack_feature_seq(v.features).len();
                &&& occurs_at(b@, 0, spec_u64_to_le_bytes(v.amount))
                &&& occurs_at(b@, 8, pack_native_token_seq(v.native_tokens))
                &&& occurs_at(b@, l1 as int, spec_u32_to_le_bytes(v.serial_number))
                &&& occurs_at(b@, l2 as int, v.token_scheme.spec_pack())
                &&& occurs_at(b@, l3 as int, pack_unlock_condition_seq(v.unlock_conditions))
                &&& occurs_at(b@, l4 as int, pack_feature_seq(v.features))
                &&& occurs_at(b@, l5 as int, pack_feature_seq(v.immutable_features))
                &&& b@.len() == l5 + pack_feature_seq(v.immutable_features).len()
            } by {
                let a1 = spec_u64_to_le_bytes(v.amount);
                let a2 = a1 + pack_native_token_seq(v.native_tokens);
                let a3 = a2 + spec_u32_to_le_bytes(v.serial_number);
                let a4 = a3 + v.token_scheme.spec_pack();
                let a5 = a4 + pack_unlock_condition_seq(v.unlock_conditions);
                let a6 = a5 + pack_feature_seq(v.features);
                v.token_scheme.lemma_pack_len();
                lemma_occurs_whole(b@);
                lemma_occurs_split(b@, 0, a6, pack_feature_seq(v.immutable_features));
                lemma_occurs_split(b@, 0, a5, pack_feature_seq(v.features));
                lemma_occurs_split(b@, 0, a4, pack_unlock_condition_seq(v.unlock_conditions));
                lemma_occurs_split(b@, 0, a3, v.token_scheme.spec_pack());
                lemma_occurs_split(b@, 0, a2, spec_u32_to_le_bytes(v.serial_number));
                lemma_occurs_split(b@, 0, a1, pack_native_token_seq(v.native_tokens));
            }
        }
        let (amount, p) = read_u64(b, 0)?;
        if let Some(ts) = verify_with {
            if amount > ts {
                return Err(Error::InvalidOutputAmount(amount));
            }
        }
        let (native_tokens, p) = NativeTokens::read(b, p)?;
        let (serial_number, p) = read_u32(b, p)?;
        let (token_scheme, p) = TokenScheme::read(b, p)?;
        proof {
            token_scheme.lemma_pack_len();
            assert forall|v: FoundryOutputView| #[trigger] v.decodes_from(bytes@, verify_with) implies {
                &&& v.native_tokens == native_tokens@
                &&& v.serial_number == serial_number
                &&& v.token_scheme == token_scheme
            } by {
                v.token_scheme.lemma_pack_len();
            }
        }
        let (unlock_conditions, p) = UnlockConditions::read(b, p)?;
        if verify_with.is_some() {
            verify_unlock_conditions(&unlock_conditions)?;
        }
        let (features, p) = Features::read(b, p)?;
        if verify_with.is_some() {
            features.verify_allowed(FOUNDRY_ALLOWED_FEATURES)?;
        }
        let (immutable_features, p) = Features::read(b, p)?;
        if verify_with.is_some() {
            immutable_features.verify_allowed(FOUNDRY_ALLOWED_IMMUTABLE_FEATURES)?;
        }
        if p != b.len() {
            return Err(Error::TrailingBytes);
        }
        let o = FoundryOutput {
            amount,
            native_tokens,
            serial_number,
            token_scheme,
            unlock_conditions,
            features,
            immutable_features,
        };
        proof {
            let a1 = spec_u64_to_le_bytes(amount);
            let a2 = a1 + pack_native_token_seq(native_tokens@);
            let a3 = a2 + spec_u32_to_le_bytes(serial_number);
            let a4 = a3 + token_scheme.spec_pack();
            let a5 = a4 + pack_unlock_condition_seq(unlock_conditions@);
            let a6 = a5 + pack_feature_seq(features@);
            lemma_occurs_join(b@, 0, a1, pack_native_token_seq(native_tokens@));
            lemma_occurs_join(b@, 0, a2, spec_u32_to_le_bytes(serial_number));
            lemma_occurs_join(b@, 0, a3, token_scheme.spec_pack());
            lemma_occurs_join(b@, 0, a4, pack_unlock_condition_seq(unlock_conditions@));
            lemma_occurs_join(b@, 0, a5, pack_feature_seq(features@));
            lemma_occurs_join(b@, 0, a6, pack_feature_seq(immutable_features@));
            assert(b@.subrange(0, b@.len() as int) =~= b@);
            assert(o@.pack() =~= a6 + pack_feature_seq(immutable_features@));
            assert forall|v: FoundryOutputView| #[trigger] v.decodes_from(bytes@, verify_with) implies v == o@ by {
                assert(v.native_tokens == native_tokens@);
            }
        }
        Ok(o)
    }

    pub fn unpack_verified(bytes: &[u8], params: &crate::rent::ProtocolParameters) -> (r: Result<FoundryOutput, Error>)
        ensures
            match r {
                Ok(o) => o@.decodes_from(bytes@, Some(params.token_supply)),
                Err(_) => true,
            },
            forall|v: FoundryOutputView| #[trigger] v.decodes_from(bytes@, Some(params.token_supply)) ==> (r is Ok
                && r->Ok_0@ == v),
    {
        FoundryOutput::unpack(bytes, Some(params.token_supply))
    }

    pub fn unpack_unverified(bytes: &[u8]) -> (r: Result<FoundryOutput, Error>)
        ensures
            match r {
                Ok(o) => o@.decodes_from(bytes@, None),
                Err(_) => true,
            },
            forall|v: FoundryOutputView| #[trigger] v.decodes_from(bytes@, None) ==> (r is Ok && r->Ok_0@ == v),
    {
        FoundryOutput::unpack(bytes, None)
    }
}

/// What a foundry output builder holds.
pub struct FoundryOutputBuilderView {
    pub amount: OutputBuilderAmount,
    pub native_tokens: Seq<NativeToken>,
    pub serial_number: u32,
    pub token_scheme: TokenScheme,
    pub unlock_conditions: Seq<UnlockCondition>,
    pub features: Seq<FeatureView>,
    pub immutable_features: Seq<FeatureView>,
}

impl FoundryOutputBuilderView {
    pub open spec fn empty(amount: OutputBuilderAmount, serial_number: u32, token_scheme: TokenScheme) -> FoundryOutputBuilderView {
        FoundryOutputBuilderView {
            amount,
            native_tokens: Seq::empty(),
            serial_number,
            token_scheme,
            unlock_conditions: Seq::empty(),
            features: Seq::empty(),
            immutable_features: Seq::empty(),
        }
    }

    /// Each set sorted, with at most one element of each key.
    pub open spec fn sorted(self) -> bool {
        &&& native_tokens_sorted(self.native_tokens)
        &&& unlock_conditions_sorted(self.unlock_conditions)
        &&& features_sorted(self.features)
        &&& features_sorted(self.immutable_features)
    }

    /// The output of these fields with the given amount.
    pub open spec fn output_with(self, amount: u64) -> FoundryOutputView {
        FoundryOutputView {
            amount,
            native_tokens: self.native_tokens,
            serial_number: self.serial_number,
            token_scheme: self.token_scheme,
            unlock_conditions: self.unlock_conditions,
            features: self.features,
            immutable_features: self.immutable_features,
        }
    }

    /// The storage deposit of the output these fields make.
    pub open spec fn rent_cost(self, rs: RentStructure) -> u64 {
        self.output_with(0).rent_cost(rs)
    }

    /// The amount the finished output gets: the fixed one, or its storage deposit.
    pub open spec fn finished_amount(self) -> u64 {
        match self.amount {
            OutputBuilderAmount::Amount(a) => a,
            OutputBuilderAmount::MinimumStorageDeposit(rs) => self.rent_cost(rs),
        }
    }

    /// The output that `finish` makes.
    pub open spec fn output(self) -> FoundryOutputView {
        self.output_with(self.finished_amount())
    }

    /// `finish` succeeds.
    pub open spec fn can_finish(self) -> bool {
        self.serial_number != 0 && self.output().well_formed() && self.output().rules_hold()
    }

    /// The error `finish_with_params` gives where it fails: that of `finish`, or an amount
    /// above the token supply.
    pub open spec fn finish_with_params_error(self, token_supply: Option<u64>, e: Error) -> bool {
        ||| !self.can_finish() && self.finish_error(e)
        ||| self.can_finish() && !amount_within_supply(self.finished_amount(), token_supply) && e
            == Error::InvalidOutputAmount(self.finished_amount())
    }

    /// The error `finish` gives where it fails, in the order of its checks.
    pub open spec fn finish_error(self, e: Error) -> bool {
        if self.serial_number == 0 {
            e == Error::InvalidFoundryZeroSerialNumber
        } else if !has_unlock_condition_kind(self.unlock_conditions, IMMUTABLE_ALIAS_ADDRESS_UNLOCK_CONDITION_KIND) {
            e == Error::MissingAddressUnlockCondition
        } else if !unlock_conditions_allowed(self.unlock_conditions, FOUNDRY_ALLOWED_UNLOCK_CONDITIONS) {
            disallowed_unlock_condition_error(self.unlock_conditions, FOUNDRY_ALLOWED_UNLOCK_CONDITIONS, e)
        } else if !(forall|i: int| 0 <= i < self.features.len() ==> (#[trigger] self.features[i]).valid()) {
            e == Error::InvalidFeatureLength
        } else if !features_allowed(self.features, FOUNDRY_ALLOWED_FEATURES) {
            disallowed_feature_error(self.features, FOUNDRY_ALLOWED_FEATURES, e)
        } else if !(forall|i: int| 0 <= i < self.immutable_features.len() ==> (#[trigger] self.immutable_features[i]).valid()) {
            e == Error::InvalidFeatureLength
        } else if !features_allowed(self.immutable_features, FOUNDRY_ALLOWED_IMMUTABLE_FEATURES) {
            disallowed_feature_error(self.immutable_features, FOUNDRY_ALLOWED_IMMUTABLE_FEATURES, e)
        } else if !native_tokens_valid(self.native_tokens) {
            native_tokens_error(self.native_tokens, e)
        } else {
            !self.token_scheme.valid() && e == Error::InvalidFoundryOutputSupply
        }
    }
}

/// Builds a foundry output: fields are set one by one, then checked together by `finish`.
#[derive(Debug, Clone)]
pub struct FoundryOutputBuilder {
    amount: OutputBuilderAmount,
    native_tokens: NativeTokens,
    serial_number: u32,
    token_scheme: TokenScheme,
    unlock_conditions: UnlockConditions,
    features: Features,
    immutable_features: Features,
}

impl View for FoundryOutputBuilder {
    type V = FoundryOutputBuilderView;

    closed spec fn view(&self) -> FoundryOutputBuilderView {
        FoundryOutputBuilderView {
            amount: self.amount,
            native_tokens: self.native_tokens@,
            serial_number: self.serial_number,
            token_scheme: self.token_scheme,
            unlock_conditions: self.unlock_conditions@,
            features: self.features@,
            immutable_features: self.immutable_features@,
        }
    }
}

impl FoundryOutputBuilder {
    pub open spec fn wf(&self) -> bool {
        self@.sorted()
    }

    fn new(amount: OutputBuilderAmount, serial_number: u32, token_scheme: TokenScheme) -> (r: FoundryOutputBuilder)
        ensures
            r.wf(),
            r@ == FoundryOutputBuilderView::empty(amount, serial_number, token_scheme),
    {
        let r = FoundryOutputBuilder {
            amount,
            native_tokens: NativeTokens::new(),
            serial_number,
            token_scheme,
            unlock_conditions: UnlockConditions::new(),
            features: Features::new(),
            immutable_features: Features::new(),
        };
        assert(r@ == FoundryOutputBuilderView::empty(amount, serial_number, token_scheme));
        r
    }

    pub fn new_with_amount(amount: u64, serial_number: u32, token_scheme: TokenScheme) -> (r: FoundryOutputBuilder)
        ensures
            r.wf(),
            r@ == FoundryOutputBuilderView::empty(OutputBuilderAmount::Amount(amount), serial_number, token_scheme),
    {
        FoundryOutputBuilder::new(OutputBuilderAmount::Amount(amount), serial_number, token_scheme)
    }

    /// A builder whose output will get the storage deposit it needs as its amount.
    pub fn new_with_minimum_storage_deposit(rent_structure: RentStructure, serial_number: u32, token_scheme: TokenScheme) -> (r:
        FoundryOutputBuilder)
        ensures
            r.wf(),
            r@ == FoundryOutputBuilderView::empty(
                OutputBuilderAmount::MinimumStorageDeposit(rent_structure),
                serial_number,
                token_scheme,
            ),
    {
        FoundryOutputBuilder::new(OutputBuilderAmount::MinimumStorageDeposit(rent_structure), serial_number, token_scheme)
    }

    /// A builder that holds the fields of `output`, its amount fixed.
    pub fn from_output(output: &FoundryOutput) -> (r: FoundryOutputBuilder)
        requires
            output@.well_formed(),
        ensures
            r.wf(),
            r@ == (FoundryOutputBuilderView {
                amount: OutputBuilderAmount::Amount(output@.amount),
                native_tokens: output@.native_tokens,
                serial_number: output@.serial_number,
                token_scheme: output@.token_scheme,
                unlock_conditions: output@.unlock_conditions,
                features: output@.features,
                immutable_features: output@.immutable_features,
            }),
    {
        FoundryOutputBuilder {
            amount: OutputBuilderAmount::Amount(output.amount),
            native_tokens: output.native_tokens.duplicate(),
            serial_number: output.serial_number,
            token_scheme: output.token_scheme,
            unlock_conditions: output.unlock_conditions.duplicate(),
            features: output.features.duplicate(),
            immutable_features: output.immutable_features.duplicate(),
        }
    }

    pub fn amount(&self) -> (r: OutputBuilderAmount)
        ensures
            r == self@.amount,
    {
        self.amount
    }

    pub fn serial_number(&self) -> (r: u32)
        ensures
            r == self@.serial_number,
    {
        self.serial_number
    }

    pub fn token_scheme(&self) -> (r: TokenScheme)
        ensures
            r == self@.token_scheme,
    {
        self.token_scheme
    }

    pub fn immutable_features(&self) -> (r: &Features)
        ensures
            r@ == self@.immutable_features,
    {
        &self.immutable_features
    }

    pub fn native_tokens(&self) -> (r: &NativeTokens)
        ensures
            r@ == self@.native_tokens,
    {
        &self.native_tokens
    }

    pub fn unlock_conditions(&self) -> (r: &UnlockConditions)
        ensures
            r@ == self@.unlock_conditions,
    {
        &self.unlock_conditions
    }

    pub fn features(&self) -> (r: &Features)
        ensures
            r@ == self@.features,
    {
        &self.features
    }

    pub fn with_amount(self, amount: u64) -> (r: FoundryOutputBuilder)
        requires
            self.wf(),
        ensures
            r.wf(),
            r@ == (FoundryOutputBuilderView { amount: OutputBuilderAmount::Amount(amount), ..self@ }),
    {
        let mut b = self;
        b.amount = OutputBuilderAmount::Amount(amount);
        b
    }

    pub fn with_minimum_storage_deposit(self, rent_structure: RentStructure) -> (r: FoundryOutputBuilder)
        requires
            self.wf(),
        ensures
            r.wf(),
            r@ == (FoundryOutputBuilderView {
                amount: OutputBuilderAmount::MinimumStorageDeposit(rent_structure),
                ..self@
            }),
    {
        let mut b = self;
        b.amount = OutputBuilderAmount::MinimumStorageDeposit(rent_structure);
        b
    }

    pub fn with_serial_number(self, serial_number: u32) -> (r: FoundryOutputBuilder)
        requires
            self.wf(),
        ensures
            r.wf(),
            r@ == (FoundryOutputBuilderView { serial_number, ..self@ }),
    {
        let mut b = self;
        b.serial_number = serial_number;
        b
    }

    pub fn with_token_scheme(self, token_scheme: TokenScheme) -> (r: FoundryOutputBuilder)
        requires
            self.wf(),
        ensures
            r.wf(),
            r@ == (FoundryOutputBuilderView { token_scheme, ..self@ }),
    {
        let mut b = self;
        b.token_scheme = token_scheme;
        b
    }

    /// Adds a native token, unless one of its identifier is there already.
    pub fn add_native_token(self, native_token: NativeToken) -> (r: FoundryOutputBuilder)
        requires
            self.wf(),
        ensures
            r.wf(),
            r@ == (FoundryOutputBuilderView { native_tokens: r@.native_tokens, ..self@ }),
            forall|x: NativeToken| #[trigger] r@.native_tokens.contains(x) <==> (self@.native_tokens.contains(x)
                || (x == native_token && !has_token_id(self@.native_tokens, native_token.token_id))),
    {
        let mut b = self;
        b.native_tokens.add(native_token);
        b
    }

    /// Sets the native tokens: the first of each identifier in `native_tokens`.
    pub fn with_native_tokens(self, native_tokens: Vec<NativeToken>) -> (r: FoundryOutputBuilder)
        requires
            self.wf(),
        ensures
            r.wf(),
            r@ == (FoundryOutputBuilderView { native_tokens: r@.native_tokens, ..self@ }),
            forall|x: NativeToken| #[trigger] r@.native_tokens.contains(x) <==> first_of_token_id(native_tokens@, x),
    {
        let mut b = self;
        b.native_tokens = NativeTokens::from_vec(native_tokens);
        b
    }

    /// Adds an unlock condition, unless one of its kind is there already.
    pub fn add_unlock_condition(self, unlock_condition: UnlockCondition) -> (r: FoundryOutputBuilder)
        requires
            self.wf(),
        ensures
            r.wf(),
            r@ == (FoundryOutputBuilderView { unlock_conditions: r@.unlock_conditions, ..self@ }),
            unlock_condition_added(self@.unlock_conditions, unlock_condition, r@.unlock_conditions),
            has_unlock_condition_kind(self@.unlock_conditions, unlock_condition.spec_kind()) ==> r@.unlock_conditions
                == self@.unlock_conditions,
            !has_unlock_condition_kind(self@.unlock_conditions, unlock_condition.spec_kind()) ==> exists|i: int|
                0 <= i <= self@.unlock_conditions.len() && #[trigger] self@.unlock_conditions.insert(i, unlock_condition)
                == r@.unlock_conditions,
    {
        let mut b = self;
        b.unlock_conditions.add(unlock_condition);
        b
    }

    /// Sets the unlock conditions: the first of each kind in `unlock_conditions`.
    pub fn with_unlock_conditions(self, unlock_conditions: Vec<UnlockCondition>) -> (r: FoundryOutputBuilder)
        requires
            self.wf(),
        ensures
            r.wf(),
            r@ == (FoundryOutputBuilderView { unlock_conditions: r@.unlock_conditions, ..self@ }),
            forall|x: UnlockCondition| #[trigger] r@.unlock_conditions.contains(x) <==> first_of_unlock_condition_kind(
                unlock_conditions@,
                x,
            ),
    {
        let mut b = self;
        b.unlock_conditions = UnlockConditions::from_vec(unlock_conditions);
        b
    }

    /// Puts an unlock condition in the place of the one of its kind, or adds it.
    pub fn replace_unlock_condition(self, unlock_condition: UnlockCondition) -> (r: FoundryOutputBuilder)
        requires
            self.wf(),
        ensures
            r.wf(),
            r@ == (FoundryOutputBuilderView { unlock_conditions: r@.unlock_conditions, ..self@ }),
            unlock_condition_replaced(self@.unlock_conditions, unlock_condition, r@.unlock_conditions),
            has_unlock_condition_kind(self@.unlock_conditions, unlock_condition.spec_kind()) ==> exists|i: int|
                0 <= i < self@.unlock_conditions.len() && self@.unlock_conditions[i].spec_kind() == unlock_condition.spec_kind()
                && #[trigger] self@.unlock_conditions.update(i, unlock_condition) == r@.unlock_conditions,
            !has_unlock_condition_kind(self@.unlock_conditions, unlock_condition.spec_kind()) ==> exists|i: int|
                0 <= i <= self@.unlock_conditions.len() && #[trigger] self@.unlock_conditions.insert(i, unlock_condition)
                == r@.unlock_conditions,
    {
        let mut b = self;
        b.unlock_conditions.replace(unlock_condition);
        b
    }

    pub fn clear_unlock_conditions(self) -> (r: FoundryOutputBuilder)
        requires
            self.wf(),
        ensures
            r.wf(),
            r@ == (FoundryOutputBuilderView { unlock_conditions: Seq::empty(), ..self@ }),
    {
        let mut b = self;
        b.unlock_conditions.clear();
        b
    }

    /// Adds a feature, unless one of its kind is there already.
    pub fn add_feature(self, feature: Feature) -> (r: FoundryOutputBuilder)
        requires
            self.wf(),
        ensures
            r.wf(),
            r@ == (FoundryOutputBuilderView { features: r@.features, ..self@ }),
            forall|x: FeatureView| #[trigger] r@.features.contains(x) <==> (self@.features.contains(x)
                || (x == feature@ && !has_feature_kind(self@.features, feature@.kind()))),
    {
        let mut b = self;
        b.features.add(feature);
        b
    }

    /// Sets the features: the first of each kind in `features`.
    pub fn with_features(self, features: Vec<Feature>) -> (r: FoundryOutputBuilder)
        requires
            self.wf(),
        ensures
            r.wf(),
            r@ == (FoundryOutputBuilderView { features: r@.features, ..self@ }),
            forall|x: FeatureView| #[trigger] r@.features.contains(x) <==> first_of_feature_kind(feature_views(features@), x),
    {
        let mut b = self;
        b.features = Features::from_vec(features);
        b
    }

    /// Puts a feature in the place of the one of its kind, or adds it.
    pub fn replace_feature(self, feature: Feature) -> (r: FoundryOutputBuilder)
        requires
            self.wf(),
        ensures
            r.wf(),
            r@ == (FoundryOutputBuilderView { features: r@.features, ..self@ }),
            forall|x: FeatureView| #[trigger] r@.features.contains(x) <==> ((self@.features.contains(x)
                && x.kind() != feature@.kind()) || x == feature@),
    {
        let mut b = self;
        b.features.replace(feature);
        b
    }

    pub fn clear_features(self) -> (r: FoundryOutputBuilder)
        requires
            self.wf(),
        ensures
            r.wf(),
            r@ == (FoundryOutputBuilderView { features: Seq::empty(), ..self@ }),
    {
        let mut b = self;
        b.features.clear();
        b
    }

    /// Adds an immutable feature, unless one of its kind is there already.
    pub fn add_immutable_feature(self, immutable_feature: Feature) -> (r: FoundryOutputBuilder)
        requires
            self.wf(),
        ensures
            r.wf(),
            r@ == (FoundryOutputBuilderView { immutable_features: r@.immutable_features, ..self@ }),
            forall|x: FeatureView| #[trigger] r@.immutable_features.contains(x) <==> (self@.immutable_features.contains(x)
                || (x == immutable_feature@ && !has_feature_kind(self@.immutable_features, immutable_feature@.kind()))),
    {
        let mut b = self;
        b.immutable_features.add(immutable_feature);
        b
    }

    /// Sets the immutable_features: the first of each kind in `immutable_features`.
    pub fn with_immutable_features(self, immutable_features: Vec<Feature>) -> (r: FoundryOutputBuilder)
        requires
            self.wf(),
        ensures
            r.wf(),
            r@ == (FoundryOutputBuilderView { immutable_features: r@.immutable_features, ..self@ }),
            forall|x: FeatureView| #[trigger] r@.immutable_features.contains(x) <==> first_of_feature_kind(feature_views(immutable_features@), x),
    {
        let mut b = self;
        b.immutable_features = Features::from_vec(immutable_features);
        b
    }

    /// Puts an immutable feature in the place of the one of its kind, or adds it.
    pub fn replace_immutable_feature(self, immutable_feature: Feature) -> (r: FoundryOutputBuilder)
        requires
            self.wf(),
        ensures
            r.wf(),
            r@ == (FoundryOutputBuilderView { immutable_features: r@.immutable_features, ..self@ }),
            forall|x: FeatureView| #[trigger] r@.immutable_features.contains(x) <==> ((self@.immutable_features.contains(x)
                && x.kind() != immutable_feature@.kind()) || x == immutable_feature@),
    {
        let mut b = self;
        b.immutable_features.replace(immutable_feature);
        b
    }

    pub fn clear_immutable_features(self) -> (r: FoundryOutputBuilder)
        requires
            self.wf(),
        ensures
            r.wf(),
            r@ == (FoundryOutputBuilderView { immutable_features: Seq::empty(), ..self@ }),
    {
        let mut b = self;
        b.immutable_features.clear();
        b
    }

    /// The storage deposit of the output these fields make.
    pub fn rent_cost(&self, rent_structure: &RentStructure) -> (r: u64)
        ensures
            r == self@.rent_cost(*rent_structure),
    {
        let mut out: Vec<u8> = Vec::new();
        write_u64(&mut out, 0);
        self.native_tokens.pack_into(&mut out);
        write_u32(&mut out, self.serial_number);
        self.token_scheme.pack_into(&mut out);
        self.unlock_conditions.pack_into(&mut out);
        self.features.pack_into(&mut out);
        self.immutable_features.pack_into(&mut out);
        assert(out@ =~= self@.output_with(0).pack());
        rent_structure.cost_of_output(out.len())
    }

    /// Checks the fields together and makes the output; under a minimum storage deposit the
    /// amount is the storage deposit of the output.
    pub fn finish(self) -> (r: Result<FoundryOutput, Error>)
        requires
            self.wf(),
        ensures
            match r {
                Ok(o) => self@.can_finish() && o@ == self@.output(),
                Err(e) => !self@.can_finish() && self@.finish_error(e),
            },
            match (self@.amount, r) {
                (OutputBuilderAmount::MinimumStorageDeposit(rs), Ok(o)) => o@.amount == o@.rent_cost(rs),
                _ => true,
            },
    {
        proof {
            if let OutputBuilderAmount::MinimumStorageDeposit(rs) = self@.amount {
                lemma_foundry_minimum_storage_deposit(self@, rs);
            }
        }
        if self.serial_number == 0 {
            return Err(Error::InvalidFoundryZeroSerialNumber);
        }
        verify_unlock_conditions(&self.unlock_conditions)?;
        if !self.features.verify() {
            return Err(Error::InvalidFeatureLength);
        }
        self.features.verify_allowed(FOUNDRY_ALLOWED_FEATURES)?;
        if !self.immutable_features.verify() {
            return Err(Error::InvalidFeatureLength);
        }
        self.immutable_features.verify_allowed(FOUNDRY_ALLOWED_IMMUTABLE_FEATURES)?;
        self.native_tokens.verify()?;
        if !self.token_scheme.verify() {
            return Err(Error::InvalidFoundryOutputSupply);
        }
        let amount = match self.amount {
            OutputBuilderAmount::Amount(amount) => amount,
            OutputBuilderAmount::MinimumStorageDeposit(rent_structure) => self.rent_cost(&rent_structure),
        };
        Ok(FoundryOutput {
            amount,
            native_tokens: self.native_tokens,
            serial_number: self.serial_number,
            token_scheme: self.token_scheme,
            unlock_conditions: self.unlock_conditions,
            features: self.features,
            immutable_features: self.immutable_features,
        })
    }

    /// As `finish`, and the amount must not exceed the token supply, where one is given.
    pub fn finish_with_params(self, params: ValidationParams) -> (r: Result<FoundryOutput, Error>)
        requires
            self.wf(),
        ensures
            match r {
                Ok(o) => self@.can_finish() && amount_within_supply(self@.finished_amount(), params.token_supply)
                    && o@ == self@.output(),
                Err(e) => self@.finish_with_params_error(params.token_supply, e),
            },
    {
        let output = self.finish()?;
        if let Some(token_supply) = params.token_supply {
            if output.amount > token_supply {
                return Err(Error::InvalidOutputAmount(output.amount));
            }
        }
        Ok(output)
    }

    /// As `finish_with_params`, giving the output as an [`Output`](crate::output::Output).
    pub fn finish_output(self, params: ValidationParams) -> (r: Result<crate::output::Output, Error>)
        requires
            self.wf(),
        ensures
            match r {
                Ok(o) => self@.can_finish() && amount_within_supply(self@.finished_amount(), params.token_supply)
                    && o@ == crate::output::OutputView::Foundry(self@.output()),
                Err(e) => self@.finish_with_params_error(params.token_supply, e),
            },
    {
        Ok(crate::output::Output::Foundry(self.finish_with_params(params)?))
    }
}

/// What the state transition rules read of a transaction: the native token balances of its
/// inputs and of its outputs, and the foundry counters of the aliases among its inputs and
/// among its outputs.
pub struct ValidationContext {
    pub input_native_tokens: Vec<(TokenId, U256)>,
    pub output_native_tokens: Vec<(TokenId, U256)>,
    pub input_alias_foundry_counters: Vec<(AliasId, u32)>,
    pub output_alias_foundry_counters: Vec<(AliasId, u32)>,
}

/// The first balance of the token in `s`.
pub open spec fn balance_of(s: Seq<(TokenId, U256)>, id: TokenId) -> Option<U256>
    decreases s.len(),
{
    if s.len() == 0 {
        None
    } else if s[0].0 == id {
        Some(s[0].1)
    } else {
        balance_of(s.drop_first(), id)
    }
}

/// The balance of the token in `s`, zero where there is none.
pub open spec fn balance_value(s: Seq<(TokenId, U256)>, id: TokenId) -> nat {
    match balance_of(s, id) {
        Some(b) => b.value(),
        None => 0,
    }
}

/// The first foundry counter of the alias in `s`.
pub open spec fn counter_of(s: Seq<(AliasId, u32)>, id: AliasId) -> Option<u32>
    decreases s.len(),
{
    if s.len() == 0 {
        None
    } else if s[0].0 == id {
        Some(s[0].1)
    } else {
        counter_of(s.drop_first(), id)
    }
}

fn lookup_balance(s: &Vec<(TokenId, U256)>, id: &TokenId) -> (r: Option<U256>)
    ensures
        r == balance_of(s@, *id),
{
    let mut i: usize = 0;
    assert(s@.skip(0) =~= s@);
    while i < s.len()
        invariant
            i <= s@.len(),
            balance_of(s@, *id) == balance_of(s@.skip(i as int), *id),
        decreases s@.len() - i,
    {
        let ghost rest = s@.skip(i as int);
        assert(rest[0] == s@[i as int]);
        assert(rest.drop_first() =~= s@.skip(i + 1));
        if s[i].0 == *id {
            return Some(s[i].1);
        }
        i += 1;
    }
    assert(s@.skip(i as int) =~= Seq::<(TokenId, U256)>::empty());
    None
}

fn lookup_counter(s: &Vec<(AliasId, u32)>, id: &AliasId) -> (r: Option<u32>)
    ensures
        r == counter_of(s@, *id),
{
    let mut i: usize = 0;
    assert(s@.skip(0) =~= s@);
    while i < s.len()
        invariant
            i <= s@.len(),
            counter_of(s@, *id) == counter_of(s@.skip(i as int), *id),
        decreases s@.len() - i,
    {
        let ghost rest = s@.skip(i as int);
        assert(rest[0] == s@[i as int]);
        assert(rest.drop_first() =~= s@.skip(i + 1));
        if s[i].0 == *id {
            return Some(s[i].1);
        }
        i += 1;
    }
    assert(s@.skip(i as int) =~= Seq::<(AliasId, u32)>::empty());
    None
}

/// The rules of a foundry passing from `current` to `next`, where the transaction's inputs hold
/// `input_tokens` and its outputs `output_tokens` of the foundry's native token.
pub open spec fn foundry_transition_outcome(
    current: FoundryOutputView,
    next: FoundryOutputView,
    input_tokens: nat,
    output_tokens: nat,
) -> Result<(), StateTransitionError> {
    let c = current.token_scheme.spec_simple();
    let n = next.token_scheme.spec_simple();
    if current.alias_id() != next.alias_id() || current.serial_number != next.serial_number
        || current.immutable_features != next.immutable_features || c.maximum_supply.value()
        != n.maximum_supply.value() {
        Err(StateTransitionError::MutatedImmutableField)
    } else if c.minted_tokens.value() > n.minted_tokens.value() || c.melted_tokens.value() > n.melted_tokens.value() {
        Err(StateTransitionError::NonMonotonicallyIncreasingNativeTokens)
    } else if input_tokens < output_tokens {
        if n.minted_tokens.value() - c.minted_tokens.value() != output_tokens - input_tokens || c.melted_tokens.value()
            != n.melted_tokens.value() {
            Err(StateTransitionError::InconsistentNativeTokensMint)
        } else {
            Ok(())
        }
    } else if input_tokens == output_tokens {
        if c.minted_tokens.value() != n.minted_tokens.value() || c.melted_tokens.value() != n.melted_tokens.value() {
            Err(StateTransitionError::InconsistentNativeTokensTransition)
        } else {
            Ok(())
        }
    } else {
        if c.melted_tokens.value() == n.melted_tokens.value() || n.melted_tokens.value() - c.melted_tokens.value()
            > input_tokens - output_tokens {
            Err(StateTransitionError::InconsistentNativeTokensMeltBurn)
        } else {
            Ok(())
        }
    }
}

/// The rules of a foundry's creation in a transaction.
pub open spec fn foundry_creation_outcome(
    next: FoundryOutputView,
    input_counters: Seq<(AliasId, u32)>,
    output_counters: Seq<(AliasId, u32)>,
    input_native_tokens: Seq<(TokenId, U256)>,
    output_native_tokens: Seq<(TokenId, U256)>,
) -> Result<(), StateTransitionError> {
    let t = next.token_scheme.spec_simple();
    match (counter_of(input_counters, next.alias_id()), counter_of(output_counters, next.alias_id())) {
        (Some(input_counter), Some(output_counter)) => if input_counter >= next.serial_number || next.serial_number
            > output_counter {
            Err(StateTransitionError::InconsistentFoundrySerialNumber)
        } else if balance_of(input_native_tokens, next.token_id()) is Some {
            Err(StateTransitionError::InconsistentNativeTokensFoundryCreation)
        } else if balance_value(output_native_tokens, next.token_id()) != t.minted_tokens.value()
            || t.melted_tokens.value() != 0 {
            Err(StateTransitionError::InconsistentNativeTokensFoundryCreation)
        } else {
            Ok(())
        },
        _ => Err(StateTransitionError::MissingAliasForFoundry),
    }
}

/// The rules of a foundry's destruction in a transaction.
pub open spec fn foundry_destruction_outcome(
    current: FoundryOutputView,
    input_native_tokens: Seq<(TokenId, U256)>,
    output_native_tokens: Seq<(TokenId, U256)>,
) -> Result<(), StateTransitionError> {
    let t = current.token_scheme.spec_simple();
    if balance_of(output_native_tokens, current.token_id()) is Some {
        Err(StateTransitionError::InconsistentNativeTokensFoundryDestruction)
    } else if t.minted_tokens.value() - t.melted_tokens.value() != balance_value(input_native_tokens, current.token_id()) {
        Err(StateTransitionError::InconsistentNativeTokensFoundryDestruction)
    } else {
        Ok(())
    }
}

impl FoundryOutput {
    /// Checks the passage from `current_state` to `next_state` against the native token
    /// balances of the transaction.
    pub fn transition_inner(
        current_state: &FoundryOutput,
        next_state: &FoundryOutput,
        input_native_tokens: &Vec<(TokenId, U256)>,
        output_native_tokens: &Vec<(TokenId, U256)>,
    ) -> (r: Result<(), StateTransitionError>)
        requires
            current_state@.well_formed(),
            current_state@.rules_hold(),
            next_state@.well_formed(),
            next_state@.rules_hold(),
        ensures
            r == foundry_transition_outcome(
                current_state@,
                next_state@,
                balance_value(input_native_tokens@, next_state@.token_id()),
                balance_value(output_native_tokens@, next_state@.token_id()),
            ),
    {
        if current_state.alias_address() != next_state.alias_address() || current_state.serial_number
            != next_state.serial_number || !current_state.immutable_features.same(&next_state.immutable_features) {
            return Err(StateTransitionError::MutatedImmutableField);
        }
        let token_id = next_state.token_id();
        let input_tokens = match lookup_balance(input_native_tokens, &token_id) {
            Some(b) => b,
            None => U256::zero(),
        };
        let output_tokens = match lookup_balance(output_native_tokens, &token_id) {
            Some(b) => b,
            None => U256::zero(),
        };
        let c = current_state.token_scheme.as_simple();
        let n = next_state.token_scheme.as_simple();
        if !c.maximum_supply.eq(&n.maximum_supply) {
            return Err(StateTransitionError::MutatedImmutableField);
        }
        if n.minted_tokens.lt(&c.minted_tokens) || n.melted_tokens.lt(&c.melted_tokens) {
            return Err(StateTransitionError::NonMonotonicallyIncreasingNativeTokens);
        }
        if input_tokens.lt(&output_tokens) {
            let minted_diff = n.minted_tokens.sub(&c.minted_tokens);
            let token_diff = output_tokens.sub(&input_tokens);
            if !minted_diff.eq(&token_diff) {
                return Err(StateTransitionError::InconsistentNativeTokensMint);
            }
            if !c.melted_tokens.eq(&n.melted_tokens) {
                return Err(StateTransitionError::InconsistentNativeTokensMint);
            }
        } else if input_tokens.eq(&output_tokens) {
            if !c.minted_tokens.eq(&n.minted_tokens) || !c.melted_tokens.eq(&n.melted_tokens) {
                return Err(StateTransitionError::InconsistentNativeTokensTransition);
            }
        } else {
            if c.melted_tokens.eq(&n.melted_tokens) {
                return Err(StateTransitionError::InconsistentNativeTokensMeltBurn);
            }
            let melted_diff = n.melted_tokens.sub(&c.melted_tokens);
            let token_diff = input_tokens.sub(&output_tokens);
            if token_diff.lt(&melted_diff) {
                return Err(StateTransitionError::InconsistentNativeTokensMeltBurn);
            }
        }
        Ok(())
    }

    /// Checks the creation of `next_state` in a transaction.
    pub fn creation(next_state: &FoundryOutput, context: &ValidationContext) -> (r: Result<(), StateTransitionError>)
        requires
            next_state@.well_formed(),
            next_state@.rules_hold(),
        ensures
            r == foundry_creation_outcome(
                next_state@,
                context.input_alias_foundry_counters@,
                context.output_alias_foundry_counters@,
                context.input_native_tokens@,
                context.output_native_tokens@,
            ),
    {
        let alias_id = next_state.alias_address();
        let input_counter = lookup_counter(&context.input_alias_foundry_counters, &alias_id);
        let output_counter = lookup_counter(&context.output_alias_foundry_counters, &alias_id);
        match (input_counter, output_counter) {
            (Some(input_counter), Some(output_counter)) => {
                if input_counter >= next_state.serial_number || next_state.serial_number > output_counter {
                    return Err(StateTransitionError::InconsistentFoundrySerialNumber);
                }
            },
            _ => {
                return Err(StateTransitionError::MissingAliasForFoundry);
            },
        }
        let token_id = next_state.token_id();
        let output_tokens = match lookup_balance(&context.output_native_tokens, &token_id) {
            Some(b) => b,
            None => U256::zero(),
        };
        let t = next_state.token_scheme.as_simple();
        if lookup_balance(&context.input_native_tokens, &token_id).is_some() {
            return Err(StateTransitionError::InconsistentNativeTokensFoundryCreation);
        }
        if !output_tokens.eq(&t.minted_tokens) || !t.melted_tokens.is_zero() {
            return Err(StateTransitionError::InconsistentNativeTokensFoundryCreation);
        }
        Ok(())
    }

    /// Checks the passage from `current_state` to `next_state` in a transaction.
    pub fn transition(current_state: &FoundryOutput, next_state: &FoundryOutput, context: &ValidationContext) -> (r: Result<
        (),
        StateTransitionError,
    >)
        requires
            current_state@.well_formed(),
            current_state@.rules_hold(),
            next_state@.well_formed(),
            next_state@.rules_hold(),
        ensures
            r == foundry_transition_outcome(
                current_state@,
                next_state@,
                balance_value(context.input_native_tokens@, next_state@.token_id()),
                balance_value(context.output_native_tokens@, next_state@.token_id()),
            ),
    {
        FoundryOutput::transition_inner(
            current_state,
            next_state,
            &context.input_native_tokens,
            &context.output_native_tokens,
        )
    }

    /// Checks the destruction of `current_state` in a transaction.
    pub fn destruction(current_state: &FoundryOutput, context: &ValidationContext) -> (r: Result<(), StateTransitionError>)
        requires
            current_state@.well_formed(),
            current_state@.rules_hold(),
        ensures
            r == foundry_destruction_outcome(current_state@, context.input_native_tokens@, context.output_native_tokens@),
    {
        let token_id = current_state.token_id();
        let input_tokens = match lookup_balance(&context.input_native_tokens, &token_id) {
            Some(b) => b,
            None => U256::zero(),
        };
        let t = current_state.token_scheme.as_simple();
        if lookup_balance(&context.output_native_tokens, &token_id).is_some() {
            return Err(StateTransitionError::InconsistentNativeTokensFoundryDestruction);
        }
        let minted_melted_diff = t.minted_tokens.sub(&t.melted_tokens);
        if !minted_melted_diff.eq(&input_tokens) {
            return Err(StateTransitionError::InconsistentNativeTokensFoundryDestruction);
        }
        Ok(())
    }
}

/// A finished foundry output, packed, is what verified unpacking accepts against any token
/// supply that `finish_with_params` accepted, and it unpacks to that same output.
pub proof fn lemma_foundry_round_trip(b: FoundryOutputBuilderView, token_supply: u64)
    requires
        b.sorted(),
        b.can_finish(),
        b.finished_amount() <= token_supply,
    ensures
        b.output().decodes_from(b.output().pack(), Some(token_supply)),
        b.output().decodes_from(b.output().pack(), None),
{
}

/// Under a minimum storage deposit, the finished output's amount is its own storage deposit.
pub proof fn lemma_foundry_minimum_storage_deposit(b: FoundryOutputBuilderView, rs: RentStructure)
    requires
        b.amount == OutputBuilderAmount::MinimumStorageDeposit(rs),
    ensures
        b.output().amount == b.output().rent_cost(rs),
{
    lemma_foundry_rent_ignores_amount(b.output_with(0), b.finished_amount(), rs);
    assert(FoundryOutputView { amount: b.finished_amount(), ..b.output_with(0) } == b.output());
}

/// A foundry with serial number zero is never finished, and says so first.
pub proof fn lemma_foundry_needs_serial_number(b: FoundryOutputBuilderView, e: Error)
    requires
        b.serial_number == 0,
        b.finish_error(e),
    ensures
        !b.can_finish(),
        e == Error::InvalidFoundryZeroSerialNumber,
{
}

/// An immutable alias address unlock condition must be there, and only allowed kinds.
fn verify_unlock_conditions(unlock_conditions: &UnlockConditions) -> (r: Result<(), Error>)
    ensures
        match r {
            Ok(()) => has_unlock_condition_kind(unlock_conditions@, IMMUTABLE_ALIAS_ADDRESS_UNLOCK_CONDITION_KIND)
                && unlock_conditions_allowed(unlock_conditions@, FOUNDRY_ALLOWED_UNLOCK_CONDITIONS),
            Err(e) => if !has_unlock_condition_kind(unlock_conditions@, IMMUTABLE_ALIAS_ADDRESS_UNLOCK_CONDITION_KIND) {
                e == Error::MissingAddressUnlockCondition
            } else {
                !unlock_conditions_allowed(unlock_conditions@, FOUNDRY_ALLOWED_UNLOCK_CONDITIONS)
                    && disallowed_unlock_condition_error(unlock_conditions@, FOUNDRY_ALLOWED_UNLOCK_CONDITIONS, e)
            },
        },
{
    if unlock_conditions.immutable_alias_address().is_none() {
        Err(Error::MissingAddressUnlockCondition)
    } else {
        unlock_conditions.verify_allowed(FOUNDRY_ALLOWED_UNLOCK_CONDITIONS)
    }
}

} // verus!
