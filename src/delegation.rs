use vstd::bytes::*;
use vstd::prelude::*;

use crate::address::Address;
use crate::codec::{lemma_occurs_join, lemma_occurs_split, lemma_occurs_whole, occurs_at, read_u64, write_u64};
use crate::error::Error;
use crate::feature::{
    disallowed_feature_error,
    feature_views, features_allowed, features_sorted, features_valid, first_of_feature_kind, has_feature_kind,
    pack_feature_seq, Feature, FeatureView, Features, FEATURE_FLAG_ISSUER,
};
use crate::ids::{AccountId, DelegationId, Id32, OutputId};
use crate::output::ChainId;
use crate::rent::{amount_within_supply, rent_cost_capped, OutputBuilderAmount, RentStructure, ValidationParams};
use crate::unlock_condition::{
    disallowed_unlock_condition_error,
    find_unlock_condition, first_of_unlock_condition_kind, has_unlock_condition_kind, pack_unlock_condition_seq,
    unlock_condition_added, unlock_condition_replaced, unlock_conditions_allowed, unlock_conditions_sorted, UnlockCondition,
    UnlockConditions, ADDRESS_UNLOCK_CONDITION_KIND, EXPIRATION_UNLOCK_CONDITION_KIND, UNLOCK_CONDITION_FLAG_ADDRESS,
};

verus! {

pub const DELEGATION_OUTPUT_KIND: u8 = 7;

/// The address alone.
pub const DELEGATION_ALLOWED_UNLOCK_CONDITIONS: u16 = UNLOCK_CONDITION_FLAG_ADDRESS;

/// The issuer.
pub const DELEGATION_ALLOWED_IMMUTABLE_FEATURES: u16 = FEATURE_FLAG_ISSUER;

/// What a delegation output holds.
pub struct DelegationOutputView {
    pub amount: u64,
    pub delegated_amount: u64,
    pub delegation_id: DelegationId,
    pub validator_id: AccountId,
    pub start_epoch: u64,
    pub end_epoch: u64,
    pub unlock_conditions: Seq<UnlockCondition>,
    pub immutable_features: Seq<FeatureView>,
}

impl DelegationOutputView {
    /// Amount, delegated amount, delegation identifier, validator identifier, start and end
    /// epochs, unlock conditions, immutable features.
    pub open spec fn pack(self) -> Seq<u8> {
        spec_u64_to_le_bytes(self.amount) + spec_u64_to_le_bytes(self.delegated_amount) + self.delegation_id.0.spec_pack()
            + self.validator_id.spec_pack() + spec_u64_to_le_bytes(self.start_epoch) + spec_u64_to_le_bytes(
            self.end_epoch,
        ) + pack_unlock_condition_seq(self.unlock_conditions) + pack_feature_seq(self.immutable_features)
    }

    pub open spec fn well_formed(self) -> bool {
        &&& unlock_conditions_sorted(self.unlock_conditions)
        &&& features_valid(self.immutable_features)
    }

    /// An address condition, and only allowed kinds.
    pub open spec fn rules_hold(self) -> bool {
        &&& has_unlock_condition_kind(self.unlock_conditions, ADDRESS_UNLOCK_CONDITION_KIND)
        &&& unlock_conditions_allowed(self.unlock_conditions, DELEGATION_ALLOWED_UNLOCK_CONDITIONS)
        &&& features_allowed(self.immutable_features, DELEGATION_ALLOWED_IMMUTABLE_FEATURES)
    }

    pub open spec fn decodes_from(self, bytes: Seq<u8>, verify_with: Option<u64>) -> bool {
        &&& self.well_formed()
        &&& verify_with is Some ==> self.rules_hold() && amount_within_supply(self.amount, verify_with)
        &&& self.pack() == bytes
    }

    pub open spec fn rent_cost(self, rs: RentStructure) -> u64 {
        rent_cost_capped(rs, 1 + self.pack().len())
    }
}

pub proof fn lemma_delegation_rent_ignores_amount(v: DelegationOutputView, amount: u64, rs: RentStructure)
    ensures
        (DelegationOutputView { amount, ..v }).rent_cost(rs) == v.rent_cost(rs),
{
    lemma_auto_spec_u64_to_from_le_bytes();
}

/// An output that delegates its tokens as voting power to a validator.
#[derive(Debug, Clone, PartialEq, Eq, Hash)]
pub struct DelegationOutput {
    amount: u64,
    delegated_amount: u64,
    delegation_id: DelegationId,
    validator_id: AccountId,
    start_epoch: u64,
    end_epoch: u64,
    unlock_conditions: UnlockConditions,
    immutable_features: Features,
}

impl View for DelegationOutput {
    type V = DelegationOutputView;

    closed spec fn view(&self) -> DelegationOutputView {
        DelegationOutputView {
            amount: self.amount,
            delegated_amount: self.delegated_amount,
            delegation_id: self.delegation_id,
            validator_id: self.validator_id,
            start_epoch: self.start_epoch,
            end_epoch: self.end_epoch,
            unlock_conditions: self.unlock_conditions@,
            immutable_features: self.immutable_features@,
        }
    }
}

impl DelegationOutput {
    pub fn build_with_amount(amount: u64, delegated_amount: u64, delegation_id: DelegationId, validator_id: AccountId) -> (r:
        DelegationOutputBuilder)
        ensures
            r.wf(),
            r@ == DelegationOutputBuilderView::empty(OutputBuilderAmount::Amount(amount), delegated_amount, delegation_id, validator_id),
    {
        DelegationOutputBuilder::new_with_amount(amount, delegated_amount, delegation_id, validator_id)
    }

    pub fn build_with_minimum_storage_deposit(
        rent_structure: RentStructure,
        delegated_amount: u64,
        delegation_id: DelegationId,
        validator_id: AccountId,
    ) -> (r: DelegationOutputBuilder)
        ensures
            r.wf(),
            r@ == DelegationOutputBuilderView::empty(
                OutputBuilderAmount::MinimumStorageDeposit(rent_structure),
                delegated_amount,
                delegation_id,
                validator_id,
            ),
    {
        DelegationOutputBuilder::new_with_minimum_storage_deposit(rent_structure, delegated_amount, delegation_id, validator_id)
    }

    pub fn amount(&self) -> (r: u64)
        ensures
            r == self@.amount,
    {
        self.amount
    }

    pub fn delegated_amount(&self) -> (r: u64)
        ensures
            r == self@.delegated_amount,
    {
        self.delegated_amount
    }

    pub fn delegation_id(&self) -> (r: DelegationId)
        ensures
            r == self@.delegation_id,
    {
        self.delegation_id
    }

    pub fn validator_id(&self) -> (r: AccountId)
        ensures
            r == self@.validator_id,
    {
        self.validator_id
    }

    pub fn start_epoch(&self) -> (r: u64)
        ensures
            r == self@.start_epoch,
    {
        self.start_epoch
    }

    pub fn end_epoch(&self) -> (r: u64)
        ensures
            r == self@.end_epoch,
    {
        self.end_epoch
    }

    pub fn unlock_conditions(&self) -> (r: &UnlockConditions)
        ensures
            r@ == self@.unlock_conditions,
    {
        &self.unlock_conditions
    }

    pub fn immutable_features(&self) -> (r: &Features)
        ensures
            r@ == self@.immutable_features,
    {
        &self.immutable_features
    }

    /// The delegation identifier, or, where it is null, the one derived from the identifier of
    /// the output that created it.
    pub fn delegation_id_non_null(&self, output_id: &OutputId) -> (r: DelegationId)
        ensures
            r == if self@.delegation_id.0.spec_is_null() {
                DelegationId::spec_from_output_id(*output_id)
            } else {
                self@.delegation_id
            },
    {
        self.delegation_id.or_from_output_id(output_id)
    }

    /// The address of the address unlock condition, which a finished output has.
    pub fn address(&self) -> (r: Address)
        requires
            has_unlock_condition_kind(self@.unlock_conditions, ADDRESS_UNLOCK_CONDITION_KIND),
        ensures
            self@.unlock_conditions.contains(UnlockCondition::Address(r)),
            r == self.spec_address(),
    {
        match self.unlock_conditions.address() {
            Some(a) => a,
            None => vstd::pervasive::unreached(),
        }
    }

    /// The address that must unlock the output at `milestone_timestamp`: that of the address
    /// condition, or the return address of an expiration condition whose time has come.
    pub fn locked_address(&self, milestone_timestamp: u32) -> (r: Address)
        requires
            has_unlock_condition_kind(self@.unlock_conditions, ADDRESS_UNLOCK_CONDITION_KIND),
        ensures
            r == match find_unlock_condition(self@.unlock_conditions, EXPIRATION_UNLOCK_CONDITION_KIND) {
                Some(UnlockCondition::Expiration { return_address, timestamp }) => if milestone_timestamp >= timestamp {
                    return_address
                } else {
                    self.spec_address()
                },
                _ => self.spec_address(),
            },
    {
        let a = self.address();
        self.unlock_conditions.locked_address(a, milestone_timestamp)
    }

    /// The address of the address unlock condition.
    pub open spec fn spec_address(&self) -> Address {
        match find_unlock_condition(self@.unlock_conditions, ADDRESS_UNLOCK_CONDITION_KIND) {
            Some(UnlockCondition::Address(a)) => a,
            _ => Address::Ed25519(Id32 { lo: 0, hi: 0 }),
        }
    }

    pub fn chain_id(&self) -> (r: ChainId)
        ensures
            r == ChainId::Delegation(self@.delegation_id),
    {
        ChainId::Delegation(self.delegation_id)
    }

    pub fn rent_cost(&self, rent_structure: &RentStructure) -> (r: u64)
        ensures
            r == self@.rent_cost(*rent_structure),
    {
        let bytes = self.pack_to_vec();
        rent_structure.cost_of_output(bytes.len())
    }

    pub fn pack_to_vec(&self) -> (r: Vec<u8>)
        ensures
            r@ == self@.pack(),
    {
        let mut out: Vec<u8> = Vec::new();
        write_u64(&mut out, self.amount);
        write_u64(&mut out, self.delegated_amount);
        self.delegation_id.0.pack_into(&mut out);
        self.validator_id.pack_into(&mut out);
        write_u64(&mut out, self.start_epoch);
        write_u64(&mut out, self.end_epoch);
        self.unlock_conditions.pack_into(&mut out);
        self.immutable_features.pack_into(&mut out);
        assert(out@ =~= self@.pack());
        out
    }

    /// Reads a delegation output that takes all of `bytes`; with `verify_with` the amount is
    /// checked against that token supply, and the conditions and features against the rules.
    pub fn unpack(bytes: &[u8], verify_with: Option<u64>) -> (r: Result<DelegationOutput, Error>)
        ensures
            match r {
                Ok(o) => o@.decodes_from(bytes@, verify_with),
                Err(_) => true,
            },
            forall|v: DelegationOutputView| #[trigger] v.decodes_from(bytes@, verify_with) ==> (r is Ok && r->Ok_0@ == v),
    {
        let b = bytes;
        proof {
            lemma_auto_spec_u64_to_from_le_bytes();
            assert forall|v: DelegationOutputView| #[trigger] v.decodes_from(bytes@, verify_with) implies {
                &&& occurs_at(b@, 0, spec_u64_to_le_bytes(v.amount))
                &&& occurs_at(b@, 8, spec_u64_to_le_bytes(v.delegated_amount))
                &&& occurs_at(b@, 16, v.delegation_id.0.spec_pack())
                &&& occurs_at(b@, 48, v.validator_id.spec_pack())
                &&& occurs_at(b@, 80, spec_u64_to_le_bytes(v.start_epoch))
                &&& occurs_at(b@, 88, spec_u64_to_le_bytes(v.end_epoch))
                &&& occurs_at(b@, 96, pack_unlock_condition_seq(v.unlock_conditions))
                &&& occurs_at(b@, 96 + pack_unlock_condition_seq(v.unlock_conditions).len() as int, pack_feature_seq(v.immutable_features))
                &&& b@.len() == 96 + pack_unlock_condition_seq(v.unlock_conditions).len() + pack_feature_seq(v.immutable_features).len()
            } by {
                v.delegation_id.0.lemma_pack_len();
                v.validator_id.lemma_pack_len();
                let a1 = spec_u64_to_le_bytes(v.amount);
                let a2 = a1 + spec_u64_to_le_bytes(v.delegated_amount);
                let a3 = a2 + v.delegation_id.0.spec_pack();
                let a4 = a3 + v.validator_id.spec_pack();
                let a5 = a4 + spec_u64_to_le_bytes(v.start_epoch);
                let a6 = a5 + spec_u64_to_le_bytes(v.end_epoch);
                let a7 = a6 + pack_unlock_condition_seq(v.unlock_conditions);
                lemma_occurs_whole(b@);
                lemma_occurs_split(b@, 0, a7, pack_feature_seq(v.immutable_features));
                lemma_occurs_split(b@, 0, a6, pack_unlock_condition_seq(v.unlock_conditions));
                lemma_occurs_split(b@, 0, a5, spec_u64_to_le_bytes(v.end_epoch));
                lemma_occurs_split(b@, 0, a4, spec_u64_to_le_bytes(v.start_epoch));
                lemma_occurs_split(b@, 0, a3, v.validator_id.spec_pack());
                lemma_occurs_split(b@, 0, a2, v.delegation_id.0.spec_pack());
                lemma_occurs_split(b@, 0, a1, spec_u64_to_le_bytes(v.delegated_amount));
            }
        }
        let (amount, p) = read_u64(b, 0)?;
        if let Some(ts) = verify_with {
            if amount > ts {
                return Err(Error::InvalidOutputAmount(amount));
            }
        }
        let (delegated_amount, p) = read_u64(b, p)?;
        let (delegation_id, p) = Id32::read(b, p)?;
        let (validator_id, p) = Id32::read(b, p)?;
        let (start_epoch, p) = read_u64(b, p)?;
        let (end_epoch, p) = read_u64(b, p)?;
        let (unlock_conditions, p) = UnlockConditions::read(b, p)?;
        if verify_with.is_some() {
            verify_unlock_conditions(&unlock_conditions)?;
        }
        let (immutable_features, p) = Features::read(b, p)?;
        if verify_with.is_some() {
            immutable_features.verify_allowed(DELEGATION_ALLOWED_IMMUTABLE_FEATURES)?;
        }
        if p != b.len() {
            return Err(Error::TrailingBytes);
        }
        let o = DelegationOutput {
            amount,
            delegated_amount,
            delegation_id: DelegationId(delegation_id),
            validator_id,
            start_epoch,
            end_epoch,
            unlock_conditions,
            immutable_features,
        };
        proof {
            delegation_id.lemma_pack_len();
            validator_id.lemma_pack_len();
            let a1 = spec_u64_to_le_bytes(amount);
            let a2 = a1 + spec_u64_to_le_bytes(delegated_amount);
            let a3 = a2 + delegation_id.spec_pack();
            let a4 = a3 + validator_id.spec_pack();
            let a5 = a4 + spec_u64_to_le_bytes(start_epoch);
            let a6 = a5 + spec_u64_to_le_bytes(end_epoch);
            let a7 = a6 + pack_unlock_condition_seq(unlock_conditions@);
            lemma_occurs_join(b@, 0, a1, spec_u64_to_le_bytes(delegated_amount));
            lemma_occurs_join(b@, 0, a2, delegation_id.spec_pack());
            lemma_occurs_join(b@, 0, a3, validator_id.spec_pack());
            lemma_occurs_join(b@, 0, a4, spec_u64_to_le_bytes(start_epoch));
            lemma_occurs_join(b@, 0, a5, spec_u64_to_le_bytes(end_epoch));
            lemma_occurs_join(b@, 0, a6, pack_unlock_condition_seq(unlock_conditions@));
            lemma_occurs_join(b@, 0, a7, pack_feature_seq(immutable_features@));
            assert(b@.subrange(0, b@.len() as int) =~= b@);
            assert(o@.pack() =~= a7 + pack_feature_seq(immutable_features@));
            assert forall|v: DelegationOutputView| #[trigger] v.decodes_from(bytes@, verify_with) implies v == o@ by {
                assert(v.unlock_conditions == unlock_conditions@);
            }
        }
        Ok(o)
    }

    pub fn unpack_verified(bytes: &[u8], params: &crate::rent::ProtocolParameters) -> (r: Result<DelegationOutput, Error>)
        ensures
            match r {
                Ok(o) => o@.decodes_from(bytes@, Some(params.token_supply)),
                Err(_) => true,
            },
            forall|v: DelegationOutputView| #[trigger] v.decodes_from(bytes@, Some(params.token_supply)) ==> (r is Ok
                && r->Ok_0@ == v),
    {
        DelegationOutput::unpack(bytes, Some(params.token_supply))
    }

    pub fn unpack_unverified(bytes: &[u8]) -> (r: Result<DelegationOutput, Error>)
        ensures
            match r {
                Ok(o) => o@.decodes_from(bytes@, None),
                Err(_) => true,
            },
            forall|v: DelegationOutputView| #[trigger] v.decodes_from(bytes@, None) ==> (r is Ok && r->Ok_0@ == v),
    {
        DelegationOutput::unpack(bytes, None)
    }
}

/// What a delegation output builder holds.
pub struct DelegationOutputBuilderView {
    pub amount: OutputBuilderAmount,
    pub delegated_amount: u64,
    pub delegation_id: DelegationId,
    pub validator_id: AccountId,
    pub start_epoch: u64,
    pub end_epoch: u64,
    pub unlock_conditions: Seq<UnlockCondition>,
    pub immutable_features: Seq<FeatureView>,
}

impl DelegationOutputBuilderView {
    pub open spec fn empty(
        amount: OutputBuilderAmount,
        delegated_amount: u64,
        delegation_id: DelegationId,
        validator_id: AccountId,
    ) -> DelegationOutputBuilderView {
        DelegationOutputBuilderView {
            amount,
            delegated_amount,
            delegation_id,
            validator_id,
            start_epoch: 0,
            end_epoch: 0,
            unlock_conditions: Seq::empty(),
            immutable_features: Seq::empty(),
        }
    }

    pub open spec fn sorted(self) -> bool {
        &&& unlock_conditions_sorted(self.unlock_conditions)
        &&& features_sorted(self.immutable_features)
    }

    pub open spec fn output_with(self, amount: u64) -> DelegationOutputView {
        DelegationOutputView {
            amount,
            delegated_amount: self.delegated_amount,
            delegation_id: self.delegation_id,
            validator_id: self.validator_id,
            start_epoch: self.start_epoch,
            end_epoch: self.end_epoch,
            unlock_conditions: self.unlock_conditions,
            immutable_features: self.immutable_features,
        }
    }

    pub open spec fn rent_cost(self, rs: RentStructure) -> u64 {
        self.output_with(0).rent_cost(rs)
    }

    pub open spec fn finished_amount(self) -> u64 {
        match self.amount {
            OutputBuilderAmount::Amount(a) => a,
            OutputBuilderAmount::MinimumStorageDeposit(rs) => self.rent_cost(rs),
        }
    }

    pub open spec fn output(self) -> DelegationOutputView {
        self.output_with(self.finished_amount())
    }

    pub open spec fn can_finish(self) -> bool {
        self.output().well_formed() && self.output().rules_hold()
    }

    /// The error `finish_with_params` gives where it fails: that of `finish`, or an amount
    /// above the token supply.
    pub open spec fn finish_with_params_error(self, token_supply: Option<u64>, e: Error) -> bool {
        ||| !self.can_finish() && self.finish_error(e)
        ||| self.can_finish() && !amount_within_supply(self.finished_amount(), token_supply) && e
            == Error::InvalidOutputAmount(self.finished_amount())
    }

    /// The error `finish` gives where it fails, in the order of its checks.
    pub open spec fn finish_error(self, e: Error) -> bool {
        if !has_unlock_condition_kind(self.unlock_conditions, ADDRESS_UNLOCK_CONDITION_KIND) {
            e == Error::MissingAddressUnlockCondition
        } else if !unlock_conditions_allowed(self.unlock_conditions, DELEGATION_ALLOWED_UNLOCK_CONDITIONS) {
            disallowed_unlock_condition_error(self.unlock_conditions, DELEGATION_ALLOWED_UNLOCK_CONDITIONS, e)
        } else if !(forall|i: int| 0 <= i < self.immutable_features.len() ==> (#[trigger] self.immutable_features[i]).valid()) {
            e == Error::InvalidFeatureLength
        } else {
            !features_allowed(self.immutable_features, DELEGATION_ALLOWED_IMMUTABLE_FEATURES) && disallowed_feature_error(
                self.immutable_features,
                DELEGATION_ALLOWED_IMMUTABLE_FEATURES,
                e,
            )
        }
    }
}

/// Builds a delegation output: fields are set one by one, then checked together by `finish`.
#[derive(Debug, Clone)]
pub struct DelegationOutputBuilder {
    amount: OutputBuilderAmount,
    delegated_amount: u64,
    delegation_id: DelegationId,
    validator_id: AccountId,
    start_epoch: u64,
    end_epoch: u64,
    unlock_conditions: UnlockConditions,
    immutable_features: Features,
}

impl View for DelegationOutputBuilder {
    type V = DelegationOutputBuilderView;

    closed spec fn view(&self) -> DelegationOutputBuilderView {
        DelegationOutputBuilderView {
            amount: self.amount,
            delegated_amount: self.delegated_amount,
            delegation_id: self.delegation_id,
            validator_id: self.validator_id,
            start_epoch: self.start_epoch,
            end_epoch: self.end_epoch,
            unlock_conditions: self.unlock_conditions@,
            immutable_features: self.immutable_features@,
        }
    }
}

impl DelegationOutputBuilder {
    pub open spec fn wf(&self) -> bool {
        self@.sorted()
    }

    fn new(amount: OutputBuilderAmount, delegated_amount: u64, delegation_id: DelegationId, validator_id: AccountId) -> (r:
        DelegationOutputBuilder)
        ensures
            r.wf(),
            r@ == DelegationOutputBuilderView::empty(amount, delegated_amount, delegation_id, validator_id),
    {
        let r = DelegationOutputBuilder {
            amount,
            delegated_amount,
            delegation_id,
            validator_id,
            start_epoch: 0,
            end_epoch: 0,
            unlock_conditions: UnlockConditions::new(),
            immutable_features: Features::new(),
        };
        assert(r@ == DelegationOutputBuilderView::empty(amount, delegated_amount, delegation_id, validator_id));
        r
    }

    pub fn new_with_amount(amount: u64, delegated_amount: u64, delegation_id: DelegationId, validator_id: AccountId) -> (r:
        DelegationOutputBuilder)
        ensures
            r.wf(),
            r@ == DelegationOutputBuilderView::empty(OutputBuilderAmount::Amount(amount), delegated_amount, delegation_id, validator_id),
    {
        DelegationOutputBuilder::new(OutputBuilderAmount::Amount(amount), delegated_amount, delegation_id, validator_id)
    }

    /// A builder whose output will get the storage deposit it needs as its amount.
    pub fn new_with_minimum_storage_deposit(
        rent_structure: RentStructure,
        delegated_amount: u64,
        delegation_id: DelegationId,
        validator_id: AccountId,
    ) -> (r: DelegationOutputBuilder)
        ensures
            r.wf(),
            r@ == DelegationOutputBuilderView::empty(
                OutputBuilderAmount::MinimumStorageDeposit(rent_structure),
                delegated_amount,
                delegation_id,
                validator_id,
            ),
    {
        DelegationOutputBuilder::new(
            OutputBuilderAmount::MinimumStorageDeposit(rent_structure),
            delegated_amount,
            delegation_id,
            validator_id,
        )
    }

    /// A builder that holds the fields of `output`, its amount fixed.
    pub fn from_output(output: &DelegationOutput) -> (r: DelegationOutputBuilder)
        requires
            output@.well_formed(),
        ensures
            r.wf(),
            r@ == (DelegationOutputBuilderView {
                amount: OutputBuilderAmount::Amount(output@.amount),
                delegated_amount: output@.delegated_amount,
                delegation_id: output@.delegation_id,
                validator_id: output@.validator_id,
                start_epoch: output@.start_epoch,
                end_epoch: output@.end_epoch,
                unlock_conditions: output@.unlock_conditions,
                immutable_features: output@.immutable_features,
            }),
    {
        DelegationOutputBuilder {
            amount: OutputBuilderAmount::Amount(output.amount),
            delegated_amount: output.delegated_amount,
            delegation_id: output.delegation_id,
            validator_id: output.validator_id,
            start_epoch: output.start_epoch,
            end_epoch: output.end_epoch,
            unlock_conditions: output.unlock_conditions.duplicate(),
            immutable_features: output.immutable_features.duplicate(),
        }
    }

    pub fn with_amount(self, amount: u64) -> (r: DelegationOutputBuilder)
        requires
            self.wf(),
        ensures
            r.wf(),
            r@ == (DelegationOutputBuilderView { amount: OutputBuilderAmount::Amount(amount), ..self@ }),
    {
        let mut b = self;
        b.amount = OutputBuilderAmount::Amount(amount);
        b
    }

    pub fn with_minimum_storage_deposit(self, rent_structure: RentStructure) -> (r: DelegationOutputBuilder)
        requires
            self.wf(),
        ensures
            r.wf(),
            r@ == (DelegationOutputBuilderView {
                amount: OutputBuilderAmount::MinimumStorageDeposit(rent_structure),
                ..self@
            }),
    {
        let mut b = self;
        b.amount = OutputBuilderAmount::MinimumStorageDeposit(rent_structure);
        b
    }

    /// Sets the delegation identifier.
    pub fn with_delegation_id(self, delegation_id: DelegationId) -> (r: DelegationOutputBuilder)
        requires
            self.wf(),
        ensures
            r.wf(),
            r@ == (DelegationOutputBuilderView { delegation_id, ..self@ }),
    {
        let mut b = self;
        b.delegation_id = delegation_id;
        b
    }

    /// Sets the validator to which the output delegates.
    pub fn with_validator_id(self, validator_id: AccountId) -> (r: DelegationOutputBuilder)
        requires
            self.wf(),
        ensures
            r.wf(),
            r@ == (DelegationOutputBuilderView { validator_id, ..self@ }),
    {
        let mut b = self;
        b.validator_id = validator_id;
        b
    }

    /// Sets the first epoch for which the output delegates.
    pub fn with_start_epoch(self, start_epoch: u64) -> (r: DelegationOutputBuilder)
        requires
            self.wf(),
        ensures
            r.wf(),
            r@ == (DelegationOutputBuilderView { start_epoch, ..self@ }),
    {
        let mut b = self;
        b.start_epoch = start_epoch;
        b
    }

    /// Sets the last epoch for which the output delegates.
    pub fn with_end_epoch(self, end_epoch: u64) -> (r: DelegationOutputBuilder)
        requires
            self.wf(),
        ensures
            r.wf(),
            r@ == (DelegationOutputBuilderView { end_epoch, ..self@ }),
    {
        let mut b = self;
        b.end_epoch = end_epoch;
        b
    }

    /// Adds an unlock condition, unless one of its kind is there already.
    pub fn add_unlock_condition(self, unlock_condition: UnlockCondition) -> (r: DelegationOutputBuilder)
        requires
            self.wf(),
        ensures
            r.wf(),
            r@ == (DelegationOutputBuilderView { unlock_conditions: r@.unlock_conditions, ..self@ }),
            unlock_condition_added(self@.unlock_conditions, unlock_condition, r@.unlock_conditions),
            has_unlock_condition_kind(self@.unlock_conditions, unlock_condition.spec_kind()) ==> r@.unlock_conditions
                == self@.unlock_conditions,
            !has_unlock_condition_kind(self@.unlock_conditions, unlock_condition.spec_kind()) ==> exists|i: int|
                0 <= i <= self@.unlock_conditions.len() && #[trigger] self@.unlock_conditions.insert(i, unlock_condition)
                == r@.unlock_conditions,
    {
        let mut b = self;
        b.unlock_conditions.add(unlock_condition);
        b
    }

    /// Sets the unlock conditions: the first of each kind in `unlock_conditions`.
    pub fn with_unlock_conditions(self, unlock_conditions: Vec<UnlockCondition>) -> (r: DelegationOutputBuilder)
        requires
            self.wf(),
        ensures
            r.wf(),
            r@ == (DelegationOutputBuilderView { unlock_conditions: r@.unlock_conditions, ..self@ }),
            forall|x: UnlockCondition| #[trigger] r@.unlock_conditions.contains(x) <==> first_of_unlock_condition_kind(
                unlock_conditions@,
                x,
            ),
    {
        let mut b = self;
        b.unlock_conditions = UnlockConditions::from_vec(unlock_conditions);
        b
    }

    /// Puts an unlock condition in the place of the one of its kind, or adds it.
    pub fn replace_unlock_condition(self, unlock_condition: UnlockCondition) -> (r: DelegationOutputBuilder)
        requires
            self.wf(),
        ensures
            r.wf(),
            r@ == (DelegationOutputBuilderView { unlock_conditions: r@.unlock_conditions, ..self@ }),
            unlock_condition_replaced(self@.unlock_conditions, unlock_condition, r@.unlock_conditions),
            has_unlock_condition_kind(self@.unlock_conditions, unlock_condition.spec_kind()) ==> exists|i: int|
                0 <= i < self@.unlock_conditions.len() && self@.unlock_conditions[i].spec_kind() == unlock_condition.spec_kind()
                && #[trigger] self@.unlock_conditions.update(i, unlock_condition) == r@.unlock_conditions,
            !has_unlock_condition_kind(self@.unlock_conditions, unlock_condition.spec_kind()) ==> exists|i: int|
                0 <= i <= self@.unlock_conditions.len() && #[trigger] self@.unlock_conditions.insert(i, unlock_condition)
                == r@.unlock_conditions,
    {
        let mut b = self;
        b.unlock_conditions.replace(unlock_condition);
        b
    }

    pub fn clear_unlock_conditions(self) -> (r: DelegationOutputBuilder)
        requires
            self.wf(),
        ensures
            r.wf(),
            r@ == (DelegationOutputBuilderView { unlock_conditions: Seq::empty(), ..self@ }),
    {
        let mut b = self;
        b.unlock_conditions.clear();
        b
    }

    /// Adds an immutable feature, unless one of its kind is there already.
    pub fn add_immutable_feature(self, immutable_feature: Feature) -> (r: DelegationOutputBuilder)
        requires
            self.wf(),
        ensures
            r.wf(),
            r@ == (DelegationOutputBuilderView { immutable_features: r@.immutable_features, ..self@ }),
            forall|x: FeatureView| #[trigger] r@.immutable_features.contains(x) <==> (self@.immutable_features.contains(x)
                || (x == immutable_feature@ && !has_feature_kind(self@.immutable_features, immutable_feature@.kind()))),
    {
        let mut b = self;
        b.immutable_features.add(immutable_feature);
        b
    }

    /// Sets the immutable_features: the first of each kind in `immutable_features`.
    pub fn with_immutable_features(self, immutable_features: Vec<Feature>) -> (r: DelegationOutputBuilder)
        requires
            self.wf(),
        ensures
            r.wf(),
            r@ == (DelegationOutputBuilderView { immutable_features: r@.immutable_features, ..self@ }),
            forall|x: FeatureView| #[trigger] r@.immutable_features.contains(x) <==> first_of_feature_kind(feature_views(immutable_features@), x),
    {
        let mut b = self;
        b.immutable_features = Features::from_vec(immutable_features);
        b
    }

    /// Puts an immutable feature in the place of the one of its kind, or adds it.
    pub fn replace_immutable_feature(self, immutable_feature: Feature) -> (r: DelegationOutputBuilder)
        requires
            self.wf(),
        ensures
            r.wf(),
            r@ == (DelegationOutputBuilderView { immutable_features: r@.immutable_features, ..self@ }),
            forall|x: FeatureView| #[trigger] r@.immutable_features.contains(x) <==> ((self@.immutable_features.contains(x)
                && x.kind() != immutable_feature@.kind()) || x == immutable_feature@),
    {
        let mut b = self;
        b.immutable_features.replace(immutable_feature);
        b
    }

    pub fn clear_immutable_features(self) -> (r: DelegationOutputBuilder)
        requires
            self.wf(),
        ensures
            r.wf(),
            r@ == (DelegationOutputBuilderView { immutable_features: Seq::empty(), ..self@ }),
    {
        let mut b = self;
        b.immutable_features.clear();
        b
    }

    /// The storage deposit of the output these fields make.
    pub fn rent_cost(&self, rent_structure: &RentStructure) -> (r: u64)
        ensures
            r == self@.rent_cost(*rent_structure),
    {
        let mut out: Vec<u8> = Vec::new();
        write_u64(&mut out, 0);
        write_u64(&mut out, self.delegated_amount);
        self.delegation_id.0.pack_into(&mut out);
        self.validator_id.pack_into(&mut out);
        write_u64(&mut out, self.start_epoch);
        write_u64(&mut out, self.end_epoch);
        self.unlock_conditions.pack_into(&mut out);
        self.immutable_features.pack_into(&mut out);
        assert(out@ =~= self@.output_with(0).pack());
        rent_structure.cost_of_output(out.len())
    }

    /// Checks the fields together and makes the output; under a minimum storage deposit the
    /// amount is the storage deposit of the output.
    pub fn finish(self) -> (r: Result<DelegationOutput, Error>)
        requires
            self.wf(),
        ensures
            match r {
                Ok(o) => self@.can_finish() && o@ == self@.output(),
                Err(e) => !self@.can_finish() && self@.finish_error(e),
            },
            match (self@.amount, r) {
                (OutputBuilderAmount::MinimumStorageDeposit(rs), Ok(o)) => o@.amount == o@.rent_cost(rs),
                _ => true,
            },
    {
        proof {
            if let OutputBuilderAmount::MinimumStorageDeposit(rs) = self@.amount {
                lemma_delegation_minimum_storage_deposit(self@, rs);
            }
        }
        verify_unlock_conditions(&self.unlock_conditions)?;
        if !self.immutable_features.verify() {
            return Err(Error::InvalidFeatureLength);
        }
        self.immutable_features.verify_allowed(DELEGATION_ALLOWED_IMMUTABLE_FEATURES)?;
        let amount = match self.amount {
            OutputBuilderAmount::Amount(amount) => amount,
            OutputBuilderAmount::MinimumStorageDeposit(rent_structure) => self.rent_cost(&rent_structure),
        };
        Ok(DelegationOutput {
            amount,
            delegated_amount: self.delegated_amount,
            delegation_id: self.delegation_id,
            validator_id: self.validator_id,
            start_epoch: self.start_epoch,
            end_epoch: self.end_epoch,
            unlock_conditions: self.unlock_conditions,
            immutable_features: self.immutable_features,
        })
    }

    /// As `finish`, and the amount must not exceed the token supply, where one is given.
    pub fn finish_with_params(self, params: ValidationParams) -> (r: Result<DelegationOutput, Error>)
        requires
            self.wf(),
        ensures
            match r {
                Ok(o) => self@.can_finish() && amount_within_supply(self@.finished_amount(), params.token_supply)
                    && o@ == self@.output(),
                Err(e) => self@.finish_with_params_error(params.token_supply, e),
            },
    {
        let output = self.finish()?;
        if let Some(token_supply) = params.token_supply {
            if output.amount > token_supply {
                return Err(Error::InvalidOutputAmount(output.amount));
            }
        }
        Ok(output)
    }

    /// As `finish_with_params`, giving the output as an [`Output`](crate::output::Output).
    pub fn finish_output(self, params: ValidationParams) -> (r: Result<crate::output::Output, Error>)
        requires
            self.wf(),
        ensures
            match r {
                Ok(o) => self@.can_finish() && amount_within_supply(self@.finished_amount(), params.token_supply)
                    && o@ == crate::output::OutputView::Delegation(self@.output()),
                Err(e) => self@.finish_with_params_error(params.token_supply, e),
            },
    {
        Ok(crate::output::Output::Delegation(self.finish_with_params(params)?))
    }
}

/// A finished delegation output, packed, is what verified unpacking accepts against any token
/// supply that `finish_with_params` accepted, and it unpacks to that same output.
pub proof fn lemma_delegation_round_trip(b: DelegationOutputBuilderView, token_supply: u64)
    requires
        b.sorted(),
        b.can_finish(),
        b.finished_amount() <= token_supply,
    ensures
        b.output().decodes_from(b.output().pack(), Some(token_supply)),
        b.output().decodes_from(b.output().pack(), None),
{
}

/// Under a minimum storage deposit, the finished output's amount is its own storage deposit.
pub proof fn lemma_delegation_minimum_storage_deposit(b: DelegationOutputBuilderView, rs: RentStructure)
    requires
        b.amount == OutputBuilderAmount::MinimumStorageDeposit(rs),
    ensures
        b.output().amount == b.output().rent_cost(rs),
{
    lemma_delegation_rent_ignores_amount(b.output_with(0), b.finished_amount(), rs);
    assert(DelegationOutputView { amount: b.finished_amount(), ..b.output_with(0) } == b.output());
}

/// An address unlock condition must be there, and only allowed kinds.
fn verify_unlock_conditions(unlock_conditions: &UnlockConditions) -> (r: Result<(), Error>)
    ensures
        match r {
            Ok(()) => has_unlock_condition_kind(unlock_conditions@, ADDRESS_UNLOCK_CONDITION_KIND)
                && unlock_conditions_allowed(unlock_conditions@, DELEGATION_ALLOWED_UNLOCK_CONDITIONS),
            Err(e) => if !has_unlock_condition_kind(unlock_conditions@, ADDRESS_UNLOCK_CONDITION_KIND) {
                e == Error::MissingAddressUnlockCondition
            } else {
                !unlock_conditions_allowed(unlock_conditions@, DELEGATION_ALLOWED_UNLOCK_CONDITIONS)
                    && disallowed_unlock_condition_error(unlock_conditions@, DELEGATION_ALLOWED_UNLOCK_CONDITIONS, e)
            },
        },
{
    if unlock_conditions.address().is_none() {
        Err(Error::MissingAddressUnlockCondition)
    } else {
        unlock_conditions.verify_allowed(DELEGATION_ALLOWED_UNLOCK_CONDITIONS)
    }
}

} // verus!
