use vstd::prelude::*;

use crate::basic::{BasicOutput, BasicOutputBuilder, BasicOutputBuilderView, BasicOutputView, BASIC_OUTPUT_KIND};
use crate::decimal::{decimal_value, is_u64_decimal, parse_u64, unsigned_digits};
use crate::delegation::{
    DelegationOutput, DelegationOutputBuilder, DelegationOutputBuilderView, DelegationOutputView, DELEGATION_OUTPUT_KIND,
};
use crate::error::Error;
use crate::feature::{feature_views, features_sorted, first_of_feature_kind, Feature, FeatureView};
use crate::foundry::{FoundryOutput, FoundryOutputBuilder, FoundryOutputBuilderView, FoundryOutputView, FOUNDRY_OUTPUT_KIND};
use crate::ids::{AccountId, DelegationId};
use crate::output::Output;
use crate::rent::{amount_within_supply, OutputBuilderAmount, RentStructure, ValidationParams};
use crate::token::{first_of_token_id, native_tokens_sorted, NativeToken, TokenScheme};
use crate::unlock_condition::{first_of_unlock_condition_kind, unlock_conditions_sorted, UnlockCondition};
use vstd::string::StringSliceAdditionalSpecFns;
use vstd::utf8::encode_utf8;

verus! {

/// The decimal digits of `v`, most significant first, without leading zeros.
pub open spec fn decimal_chars(v: nat) -> Seq<char>
    decreases v,
{
    if v < 10 {
        seq![((v + 48) as u8) as char]
    } else {
        decimal_chars(v / 10).push((((v % 10) + 48) as u8) as char)
    }
}

/// Relies on `ToString` for `u64`, which writes the decimal digits of the number.
#[verifier::external_body]
fn decimal_string(v: u64) -> (r: String)
    ensures
        r@ == decimal_chars(v as nat),
{
    v.to_string()
}

/// Reads a decimal amount of a transport record; `field` names it in the error.
pub fn parse_amount(s: &String, field: &'static str) -> (r: Result<u64, Error>)
    ensures
        match r {
            Ok(v) => is_u64_decimal(encode_utf8(s@)) && v == decimal_value(unsigned_digits(encode_utf8(s@))),
            Err(e) => !is_u64_decimal(encode_utf8(s@)) && e == Error::InvalidField(field),
        },
{
    let t = s.as_str();
    assert(t.spec_bytes() == encode_utf8(s@));
    match parse_u64(t) {
        Some(v) => Ok(v),
        None => Err(Error::InvalidField(field)),
    }
}

/// The amount of a transport record under construction: a decimal amount, or the minimum
/// storage deposit under a cost model.
#[derive(Debug, Clone, PartialEq, Eq)]
pub enum OutputBuilderAmountDto {
    Amount(String),
    MinimumStorageDeposit(RentStructure),
}

/// The sets the parts of a transport record make: each the first of its key there.
pub open spec fn sets_of(
    native_tokens: Seq<NativeToken>,
    unlock_conditions: Seq<UnlockCondition>,
    features: Seq<FeatureView>,
    n: Seq<NativeToken>,
    u: Seq<UnlockCondition>,
    f: Seq<FeatureView>,
) -> bool {
    &&& native_tokens_sorted(n)
    &&& unlock_conditions_sorted(u)
    &&& features_sorted(f)
    &&& forall|x: NativeToken| #[trigger] n.contains(x) <==> first_of_token_id(native_tokens, x)
    &&& forall|x: UnlockCondition| #[trigger] u.contains(x) <==> first_of_unlock_condition_kind(unlock_conditions, x)
    &&& forall|x: FeatureView| #[trigger] f.contains(x) <==> first_of_feature_kind(features, x)
}

pub open spec fn tokens_or_none(v: Option<Vec<NativeToken>>) -> Seq<NativeToken> {
    match v {
        Some(v) => v@,
        None => Seq::empty(),
    }
}

pub open spec fn features_or_none(v: Option<Vec<Feature>>) -> Seq<FeatureView> {
    match v {
        Some(v) => feature_views(v@),
        None => Seq::empty(),
    }
}

proof fn lemma_none_first_of()
    ensures
        forall|x: NativeToken| !first_of_token_id(Seq::empty(), x),
        forall|x: FeatureView| !first_of_feature_kind(Seq::empty(), x),
{
}

/// A basic output in transport form.
#[derive(Debug, Clone, PartialEq, Eq)]
pub struct BasicOutputDto {
    pub kind: u8,
    pub amount: u64,
    pub mana: u64,
    pub native_tokens: Vec<NativeToken>,
    pub unlock_conditions: Vec<UnlockCondition>,
    pub features: Vec<Feature>,
}

/// `d` is the transport form of `v`.
pub open spec fn basic_dto_of(d: BasicOutputDto, v: BasicOutputView) -> bool {
    &&& d.kind == BASIC_OUTPUT_KIND
    &&& d.amount == v.amount
    &&& d.mana == v.mana
    &&& d.native_tokens@ == v.native_tokens
    &&& d.unlock_conditions@ == v.unlock_conditions
    &&& feature_views(d.features@) == v.features
}

/// What finishing `b` under the token supply gives, as `finish_with_params` states it.
pub open spec fn basic_finished(b: BasicOutputBuilderView, token_supply: Option<u64>, r: Result<BasicOutputView, Error>) -> bool {
    match r {
        Ok(v) => b.can_finish() && amount_within_supply(b.finished_amount(), token_supply) && v == b.output(),
        Err(e) => b.finish_with_params_error(token_supply, e),
    }
}

/// `r` is what finishing the builder of these parts gives: each set holds the first of each
/// key of its part.
pub open spec fn basic_from_parts(
    amount: OutputBuilderAmount,
    mana: u64,
    native_tokens: Seq<NativeToken>,
    unlock_conditions: Seq<UnlockCondition>,
    features: Seq<FeatureView>,
    token_supply: Option<u64>,
    r: Result<BasicOutputView, Error>,
) -> bool {
    exists|b: BasicOutputBuilderView|
        {
            &&& b.amount == amount
            &&& b.mana == mana
            &&& #[trigger] sets_of(
                native_tokens,
                unlock_conditions,
                features,
                b.native_tokens,
                b.unlock_conditions,
                b.features,
            )
            &&& basic_finished(b, token_supply, r)
        }
}

pub open spec fn basic_result_view(r: Result<BasicOutput, Error>) -> Result<BasicOutputView, Error> {
    match r {
        Ok(o) => Ok(o@),
        Err(e) => Err(e),
    }
}

impl BasicOutputDto {
    pub fn from_output(output: &BasicOutput) -> (r: BasicOutputDto)
        ensures
            basic_dto_of(r, output@),
    {
        BasicOutputDto {
            kind: BASIC_OUTPUT_KIND,
            amount: output.amount(),
            mana: output.mana(),
            native_tokens: output.native_tokens().to_vec(),
            unlock_conditions: output.unlock_conditions().to_vec(),
            features: output.features().to_vec(),
        }
    }
}

impl BasicOutput {
    /// Builds a basic output from the parts of a transport record and finishes it.
    pub fn try_from_dtos(
        amount: OutputBuilderAmount,
        mana: u64,
        native_tokens: Option<Vec<NativeToken>>,
        unlock_conditions: Vec<UnlockCondition>,
        features: Option<Vec<Feature>>,
        params: ValidationParams,
    ) -> (r: Result<BasicOutput, Error>)
        ensures
            basic_from_parts(
                amount,
                mana,
                tokens_or_none(native_tokens),
                unlock_conditions@,
                features_or_none(features),
                params.token_supply,
                basic_result_view(r),
            ),
    {
        let ghost nts = tokens_or_none(native_tokens);
        let ghost fs = features_or_none(features);
        let ghost ucs = unlock_conditions@;
        let mut builder = match amount {
            OutputBuilderAmount::Amount(a) => BasicOutputBuilder::new_with_amount(a),
            OutputBuilderAmount::MinimumStorageDeposit(rs) => BasicOutputBuilder::new_with_minimum_storage_deposit(rs),
        }.with_mana(mana);
        if let Some(native_tokens) = native_tokens {
            builder = builder.with_native_tokens(native_tokens);
        }
        builder = builder.with_unlock_conditions(unlock_conditions);
        if let Some(features) = features {
            builder = builder.with_features(features);
        }
        let ghost b = builder@;
        proof {
            lemma_none_first_of();
            assert(sets_of(nts, ucs, fs, b.native_tokens, b.unlock_conditions, b.features));
        }
        let r = builder.finish_with_params(params);
        proof {
            assert(basic_finished(b, params.token_supply, basic_result_view(r)));
        }
        r
    }

    /// The basic output of a transport record.
    pub fn try_from_dto(dto: BasicOutputDto, params: ValidationParams) -> (r: Result<BasicOutput, Error>)
        ensures
            basic_from_parts(
                OutputBuilderAmount::Amount(dto.amount),
                dto.mana,
                dto.native_tokens@,
                dto.unlock_conditions@,
                feature_views(dto.features@),
                params.token_supply,
                basic_result_view(r),
            ),
    {
        BasicOutput::try_from_dtos(
            OutputBuilderAmount::Amount(dto.amount),
            dto.mana,
            Some(dto.native_tokens),
            dto.unlock_conditions,
            Some(dto.features),
            params,
        )
    }
}

/// The amount a transport record asks for, where its decimal text is readable.
pub open spec fn builder_amount_of(amount: OutputBuilderAmountDto) -> Option<OutputBuilderAmount> {
    match amount {
        OutputBuilderAmountDto::Amount(s) => if is_u64_decimal(encode_utf8(s@)) {
            Some(OutputBuilderAmount::Amount(decimal_value(unsigned_digits(encode_utf8(s@))) as u64))
        } else {
            None
        },
        OutputBuilderAmountDto::MinimumStorageDeposit(rs) => Some(OutputBuilderAmount::MinimumStorageDeposit(rs)),
    }
}

/// A foundry output in transport form.
#[derive(Debug, Clone, PartialEq, Eq)]
pub struct FoundryOutputDto {
    pub kind: u8,
    pub amount: String,
    pub native_tokens: Vec<NativeToken>,
    pub serial_number: u32,
    pub token_scheme: TokenScheme,
    pub unlock_conditions: Vec<UnlockCondition>,
    pub features: Vec<Feature>,
    pub immutable_features: Vec<Feature>,
}

/// `d` is the transport form of `v`.
pub open spec fn foundry_dto_of(d: FoundryOutputDto, v: FoundryOutputView) -> bool {
    &&& d.kind == FOUNDRY_OUTPUT_KIND
    &&& d.amount@ == decimal_chars(v.amount as nat)
    &&& d.native_tokens@ == v.native_tokens
    &&& d.serial_number == v.serial_number
    &&& d.token_scheme == v.token_scheme
    &&& d.unlock_conditions@ == v.unlock_conditions
    &&& feature_views(d.features@) == v.features
    &&& feature_views(d.immutable_features@) == v.immutable_features
}

/// What finishing `b` under the token supply gives, as `finish_with_params` states it.
pub open spec fn foundry_finished(
    b: FoundryOutputBuilderView,
    token_supply: Option<u64>,
    r: Result<FoundryOutputView, Error>,
) -> bool {
    match r {
        Ok(v) => b.can_finish() && amount_within_supply(b.finished_amount(), token_supply) && v == b.output(),
        Err(e) => b.finish_with_params_error(token_supply, e),
    }
}

/// `r` is what the parts of a transport record give: an error for an unreadable amount, else
/// what finishing the builder of these parts gives.
pub open spec fn foundry_from_parts(
    amount: OutputBuilderAmountDto,
    native_tokens: Seq<NativeToken>,
    serial_number: u32,
    token_scheme: TokenScheme,
    unlock_conditions: Seq<UnlockCondition>,
    features: Seq<FeatureView>,
    immutable_features: Seq<FeatureView>,
    token_supply: Option<u64>,
    r: Result<FoundryOutputView, Error>,
) -> bool {
    match builder_amount_of(amount) {
        None => r == Err::<FoundryOutputView, Error>(Error::InvalidField("amount")),
        Some(a) => exists|b: FoundryOutputBuilderView|
            {
                &&& b.amount == a
                &&& b.serial_number == serial_number
                &&& b.token_scheme == token_scheme
                &&& features_sorted(b.immutable_features)
                &&& forall|x: FeatureView| #[trigger] b.immutable_features.contains(x) <==> first_of_feature_kind(
                    immutable_features,
                    x,
                )
                &&& #[trigger] sets_of(
                    native_tokens,
                    unlock_conditions,
                    features,
                    b.native_tokens,
                    b.unlock_conditions,
                    b.features,
                )
                &&& foundry_finished(b, token_supply, r)
            },
    }
}

pub open spec fn foundry_result_view(r: Result<FoundryOutput, Error>) -> Result<FoundryOutputView, Error> {
    match r {
        Ok(o) => Ok(o@),
        Err(e) => Err(e),
    }
}

impl FoundryOutputDto {
    pub fn from_output(output: &FoundryOutput) -> (r: FoundryOutputDto)
        ensures
            foundry_dto_of(r, output@),
    {
        FoundryOutputDto {
            kind: FOUNDRY_OUTPUT_KIND,
            amount: decimal_string(output.amount()),
            native_tokens: output.native_tokens().to_vec(),
            serial_number: output.serial_number(),
            token_scheme: output.token_scheme(),
            unlock_conditions: output.unlock_conditions().to_vec(),
            features: output.features().to_vec(),
            immutable_features: output.immutable_features().to_vec(),
        }
    }
}

impl FoundryOutput {
    /// Builds a foundry output from the parts of a transport record and finishes it.
    pub fn try_from_dtos(
        amount: OutputBuilderAmountDto,
        native_tokens: Option<Vec<NativeToken>>,
        serial_number: u32,
        token_scheme: TokenScheme,
        unlock_conditions: Vec<UnlockCondition>,
        features: Option<Vec<Feature>>,
        immutable_features: Option<Vec<Feature>>,
        params: ValidationParams,
    ) -> (r: Result<FoundryOutput, Error>)
        ensures
            foundry_from_parts(
                amount,
                tokens_or_none(native_tokens),
                serial_number,
                token_scheme,
                unlock_conditions@,
                features_or_none(features),
                features_or_none(immutable_features),
                params.token_supply,
                foundry_result_view(r),
            ),
    {
        let ghost nts = tokens_or_none(native_tokens);
        let ghost fs = features_or_none(features);
        let ghost ifs = features_or_none(immutable_features);
        let ghost ucs = unlock_conditions@;
        let ghost amount_dto = amount;
        let mut builder = match amount {
            OutputBuilderAmountDto::Amount(a) => {
                let a = match parse_amount(&a, "amount") {
                    Ok(a) => a,
                    Err(e) => return Err(e),
                };
                FoundryOutputBuilder::new_with_amount(a, serial_number, token_scheme)
            },
            OutputBuilderAmountDto::MinimumStorageDeposit(rs) => FoundryOutputBuilder::new_with_minimum_storage_deposit(
                rs,
                serial_number,
                token_scheme,
            ),
        };
        if let Some(native_tokens) = native_tokens {
            builder = builder.with_native_tokens(native_tokens);
        }
        builder = builder.with_unlock_conditions(unlock_conditions);
        if let Some(features) = features {
            builder = builder.with_features(features);
        }
        if let Some(immutable_features) = immutable_features {
            builder = builder.with_immutable_features(immutable_features);
        }
        let ghost b = builder@;
        proof {
            lemma_none_first_of();
            assert(sets_of(nts, ucs, fs, b.native_tokens, b.unlock_conditions, b.features));
            assert(builder_amount_of(amount_dto) == Some(b.amount));
        }
        let r = builder.finish_with_params(params);
        proof {
            assert(foundry_finished(b, params.token_supply, foundry_result_view(r)));
        }
        r
    }

    /// The foundry output of a transport record.
    pub fn try_from_dto(dto: FoundryOutputDto, params: ValidationParams) -> (r: Result<FoundryOutput, Error>)
        ensures
            foundry_from_parts(
                OutputBuilderAmountDto::Amount(dto.amount),
                dto.native_tokens@,
                dto.serial_number,
                dto.token_scheme,
                dto.unlock_conditions@,
                feature_views(dto.features@),
                feature_views(dto.immutable_features@),
                params.token_supply,
                foundry_result_view(r),
            ),
    {
        FoundryOutput::try_from_dtos(
            OutputBuilderAmountDto::Amount(dto.amount),
            Some(dto.native_tokens),
            dto.serial_number,
            dto.token_scheme,
            dto.unlock_conditions,
            Some(dto.features),
            Some(dto.immutable_features),
            params,
        )
    }
}

/// A delegation output in transport form.
#[derive(Debug, Clone, PartialEq, Eq)]
pub struct DelegationOutputDto {
    pub kind: u8,
    pub amount: String,
    pub delegated_amount: String,
    pub delegation_id: DelegationId,
    pub validator_id: AccountId,
    pub start_epoch: u64,
    pub end_epoch: u64,
    pub unlock_conditions: Vec<UnlockCondition>,
    pub immutable_features: Vec<Feature>,
}

/// `d` is the transport form of `v`.
pub open spec fn delegation_dto_of(d: DelegationOutputDto, v: DelegationOutputView) -> bool {
    &&& d.kind == DELEGATION_OUTPUT_KIND
    &&& d.amount@ == decimal_chars(v.amount as nat)
    &&& d.delegated_amount@ == decimal_chars(v.delegated_amount as nat)
    &&& d.delegation_id == v.delegation_id
    &&& d.validator_id == v.validator_id
    &&& d.start_epoch == v.start_epoch
    &&& d.end_epoch == v.end_epoch
    &&& d.unlock_conditions@ == v.unlock_conditions
    &&& feature_views(d.immutable_features@) == v.immutable_features
}

/// What finishing `b` under the token supply gives, as `finish_with_params` states it.
pub open spec fn delegation_finished(
    b: DelegationOutputBuilderView,
    token_supply: Option<u64>,
    r: Result<DelegationOutputView, Error>,
) -> bool {
    match r {
        Ok(v) => b.can_finish() && amount_within_supply(b.finished_amount(), token_supply) && v == b.output(),
        Err(e) => b.finish_with_params_error(token_supply, e),
    }
}

/// `r` is what the parts of a transport record give: an error for an unreadable amount or
/// delegated amount, else what finishing the builder of these parts gives.
pub open spec fn delegation_from_parts(
    amount: OutputBuilderAmountDto,
    delegated_amount: Seq<u8>,
    delegation_id: DelegationId,
    validator_id: AccountId,
    start_epoch: u64,
    end_epoch: u64,
    unlock_conditions: Seq<UnlockCondition>,
    immutable_features: Seq<FeatureView>,
    token_supply: Option<u64>,
    r: Result<DelegationOutputView, Error>,
) -> bool {
    match builder_amount_of(amount) {
        None => r == Err::<DelegationOutputView, Error>(Error::InvalidField("amount")),
        Some(a) => if !is_u64_decimal(delegated_amount) {
            r == Err::<DelegationOutputView, Error>(Error::InvalidField("delegatedAmount"))
        } else {
            exists|b: DelegationOutputBuilderView|
                {
                    &&& b.amount == a
                    &&& b.delegated_amount == decimal_value(unsigned_digits(delegated_amount))
                    &&& b.delegation_id == delegation_id
                    &&& b.validator_id == validator_id
                    &&& b.start_epoch == start_epoch
                    &&& b.end_epoch == end_epoch
                    &&& #[trigger] unlock_conditions_sorted(b.unlock_conditions)
                    &&& features_sorted(b.immutable_features)
                    &&& forall|x: UnlockCondition| #[trigger] b.unlock_conditions.contains(x)
                        <==> first_of_unlock_condition_kind(unlock_conditions, x)
                    &&& forall|x: FeatureView| #[trigger] b.immutable_features.contains(x) <==> first_of_feature_kind(
                        immutable_features,
                        x,
                    )
                    &&& delegation_finished(b, token_supply, r)
                }
        },
    }
}

pub open spec fn delegation_result_view(r: Result<DelegationOutput, Error>) -> Result<DelegationOutputView, Error> {
    match r {
        Ok(o) => Ok(o@),
        Err(e) => Err(e),
    }
}

impl DelegationOutputDto {
    pub fn from_output(output: &DelegationOutput) -> (r: DelegationOutputDto)
        ensures
            delegation_dto_of(r, output@),
    {
        DelegationOutputDto {
            kind: DELEGATION_OUTPUT_KIND,
            amount: decimal_string(output.amount()),
            delegated_amount: decimal_string(output.delegated_amount()),
            delegation_id: output.delegation_id(),
            validator_id: output.validator_id(),
            start_epoch: output.start_epoch(),
            end_epoch: output.end_epoch(),
            unlock_conditions: output.unlock_conditions().to_vec(),
            immutable_features: output.immutable_features().to_vec(),
        }
    }
}

impl DelegationOutput {
    /// Builds a delegation output from the parts of a transport record and finishes it.
    pub fn try_from_dtos(
        amount: OutputBuilderAmountDto,
        delegated_amount: String,
        delegation_id: &DelegationId,
        validator_id: &AccountId,
        start_epoch: u64,
        end_epoch: u64,
        unlock_conditions: Vec<UnlockCondition>,
        immutable_features: Option<Vec<Feature>>,
        params: ValidationParams,
    ) -> (r: Result<DelegationOutput, Error>)
        ensures
            delegation_from_parts(
                amount,
                encode_utf8(delegated_amount@),
                *delegation_id,
                *validator_id,
                start_epoch,
                end_epoch,
                unlock_conditions@,
                features_or_none(immutable_features),
                params.token_supply,
                delegation_result_view(r),
            ),
    {
        let ghost ifs = features_or_none(immutable_features);
        let ghost ucs = unlock_conditions@;
        let ghost amount_dto = amount;
        let mut builder = match amount {
            OutputBuilderAmountDto::Amount(a) => {
                let a = match parse_amount(&a, "amount") {
                    Ok(a) => a,
                    Err(e) => return Err(e),
                };
                let d = match parse_amount(&delegated_amount, "delegatedAmount") {
                    Ok(d) => d,
                    Err(e) => return Err(e),
                };
                DelegationOutputBuilder::new_with_amount(a, d, *delegation_id, *validator_id)
            },
            OutputBuilderAmountDto::MinimumStorageDeposit(rs) => {
                let d = match parse_amount(&delegated_amount, "delegatedAmount") {
                    Ok(d) => d,
                    Err(e) => return Err(e),
                };
                DelegationOutputBuilder::new_with_minimum_storage_deposit(rs, d, *delegation_id, *validator_id)
            },
        };
        builder = builder.with_start_epoch(start_epoch);
        builder = builder.with_end_epoch(end_epoch);
        builder = builder.with_unlock_conditions(unlock_conditions);
        if let Some(immutable_features) = immutable_features {
            builder = builder.with_immutable_features(immutable_features);
        }
        let ghost b = builder@;
        proof {
            lemma_none_first_of();
            assert(unlock_conditions_sorted(b.unlock_conditions));
            assert(builder_amount_of(amount_dto) == Some(b.amount));
        }
        let r = builder.finish_with_params(params);
        proof {
            assert(delegation_finished(b, params.token_supply, delegation_result_view(r)));
        }
        r
    }

    /// The delegation output of a transport record.
    pub fn try_from_dto(dto: DelegationOutputDto, params: ValidationParams) -> (r: Result<DelegationOutput, Error>)
        ensures
            delegation_from_parts(
                OutputBuilderAmountDto::Amount(dto.amount),
                encode_utf8(dto.delegated_amount@),
                dto.delegation_id,
                dto.validator_id,
                dto.start_epoch,
                dto.end_epoch,
                dto.unlock_conditions@,
                feature_views(dto.immutable_features@),
                params.token_supply,
                delegation_result_view(r),
            ),
    {
        DelegationOutput::try_from_dtos(
            OutputBuilderAmountDto::Amount(dto.amount),
            dto.delegated_amount,
            &dto.delegation_id,
            &dto.validator_id,
            dto.start_epoch,
            dto.end_epoch,
            dto.unlock_conditions,
            Some(dto.immutable_features),
            params,
        )
    }
}

/// An output in transport form.
#[derive(Debug, Clone, PartialEq, Eq)]
pub enum OutputDto {
    Basic(BasicOutputDto),
    Delegation(DelegationOutputDto),
    Foundry(FoundryOutputDto),
}

/// `r` is what the transport record `dto` gives under the token supply: an output of the
/// record's variant, made as that variant's conversion states, or its error.
pub open spec fn output_from_dto(dto: OutputDto, token_supply: Option<u64>, r: Result<Output, Error>) -> bool {
    match dto {
        OutputDto::Basic(d) => {
            let parts = |x: Result<BasicOutputView, Error>|
                basic_from_parts(
                    OutputBuilderAmount::Amount(d.amount),
                    d.mana,
                    d.native_tokens@,
                    d.unlock_conditions@,
                    feature_views(d.features@),
                    token_supply,
                    x,
                );
            match r {
                Ok(Output::Basic(o)) => parts(Ok(o@)),
                Err(e) => parts(Err(e)),
                _ => false,
            }
        },
        OutputDto::Delegation(d) => {
            let parts = |x: Result<DelegationOutputView, Error>|
                delegation_from_parts(
                    OutputBuilderAmountDto::Amount(d.amount),
                    encode_utf8(d.delegated_amount@),
                    d.delegation_id,
                    d.validator_id,
                    d.start_epoch,
                    d.end_epoch,
                    d.unlock_conditions@,
                    feature_views(d.immutable_features@),
                    token_supply,
                    x,
                );
            match r {
                Ok(Output::Delegation(o)) => parts(Ok(o@)),
                Err(e) => parts(Err(e)),
                _ => false,
            }
        },
        OutputDto::Foundry(d) => {
            let parts = |x: Result<FoundryOutputView, Error>|
                foundry_from_parts(
                    OutputBuilderAmountDto::Amount(d.amount),
                    d.native_tokens@,
                    d.serial_number,
                    d.token_scheme,
                    d.unlock_conditions@,
                    feature_views(d.features@),
                    feature_views(d.immutable_features@),
                    token_supply,
                    x,
                );
            match r {
                Ok(Output::Foundry(o)) => parts(Ok(o@)),
                Err(e) => parts(Err(e)),
                _ => false,
            }
        },
    }
}

impl OutputDto {
    pub fn from_output(output: &Output) -> (r: OutputDto)
        ensures
            match (output, r) {
                (Output::Basic(o), OutputDto::Basic(d)) => basic_dto_of(d, o@),
                (Output::Delegation(o), OutputDto::Delegation(d)) => delegation_dto_of(d, o@),
                (Output::Foundry(o), OutputDto::Foundry(d)) => foundry_dto_of(d, o@),
                _ => false,
            },
    {
        match output {
            Output::Basic(o) => OutputDto::Basic(BasicOutputDto::from_output(o)),
            Output::Delegation(o) => OutputDto::Delegation(DelegationOutputDto::from_output(o)),
            Output::Foundry(o) => OutputDto::Foundry(FoundryOutputDto::from_output(o)),
        }
    }
}

impl Output {
    /// The output of a transport record, its amount unchecked against any token supply.
    pub fn try_from_dto(dto: OutputDto) -> (r: Result<Output, Error>)
        ensures
            output_from_dto(dto, None, r),
    {
        Output::try_from_dto_with_params(dto, ValidationParams::new())
    }

    /// The output of a transport record, checked against the parameters.
    pub fn try_from_dto_with_params(dto: OutputDto, params: ValidationParams) -> (r: Result<Output, Error>)
        ensures
            output_from_dto(dto, params.token_supply, r),
    {
        match dto {
            OutputDto::Basic(d) => match BasicOutput::try_from_dto(d, params) {
                Ok(o) => Ok(Output::Basic(o)),
                Err(e) => Err(e),
            },
            OutputDto::Delegation(d) => match DelegationOutput::try_from_dto(d, params) {
                Ok(o) => Ok(Output::Delegation(o)),
                Err(e) => Err(e),
            },
            OutputDto::Foundry(d) => match FoundryOutput::try_from_dto(d, params) {
                Ok(o) => Ok(Output::Foundry(o)),
                Err(e) => Err(e),
            },
        }
    }
}

} // verus!
