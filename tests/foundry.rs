use iota_outputs::foundry::FOUNDRY_ALLOWED_FEATURES;
use iota_outputs::token::SIMPLE_TOKEN_SCHEME_KIND;
use iota_outputs::{
    Error, Feature, FoundryId, FoundryOutput, FoundryOutputBuilder, FoundryOutputDto, Id32, NativeToken, Output,
    OutputBuilderAmountDto, OutputDto, ProtocolParameters, RentStructure, SimpleTokenScheme, StateTransitionError,
    TokenId, TokenScheme, UnlockCondition, ValidationContext, ValidationParams, U256,
};

fn protocol_parameters() -> ProtocolParameters {
    ProtocolParameters::new(1_813_620_509_061_365, RentStructure::new(100, 10, 1))
}

fn id(n: u128) -> Id32 {
    Id32 { lo: n, hi: n.wrapping_mul(17) }
}

fn token_scheme(minted: u128, melted: u128, maximum: u128) -> TokenScheme {
    TokenScheme::Simple(
        SimpleTokenScheme::new(U256::from_u128(minted), U256::from_u128(melted), U256::from_u128(maximum)).unwrap(),
    )
}

fn alias_condition(n: u128) -> UnlockCondition {
    UnlockCondition::ImmutableAliasAddress(id(n))
}

fn metadata(n: u8) -> Feature {
    Feature::metadata(vec![n; 3]).unwrap()
}

fn native_token(foundry_id: FoundryId, amount: u128) -> NativeToken {
    NativeToken::new(foundry_id, U256::from_u128(amount)).unwrap()
}

fn sample_foundry_output(token_supply: u64) -> FoundryOutput {
    let foundry_id = FoundryId::build(&id(3), 9, SIMPLE_TOKEN_SCHEME_KIND);
    FoundryOutput::build_with_amount(500_000, 12, token_scheme(70, 20, 1000))
        .add_native_token(native_token(foundry_id, 5))
        .add_unlock_condition(alias_condition(1))
        .add_feature(metadata(1))
        .add_immutable_feature(metadata(2))
        .finish_with_params(ValidationParams::with_token_supply(token_supply))
        .unwrap()
}

/// A foundry of alias 1 with serial number 1 and the given counts.
fn foundry(minted: u128, melted: u128) -> FoundryOutput {
    FoundryOutput::build_with_amount(1000, 1, token_scheme(minted, melted, 1_000_000))
        .add_unlock_condition(alias_condition(1))
        .finish()
        .unwrap()
}

fn balances(token_id: TokenId, amount: u128) -> Vec<(TokenId, U256)> {
    vec![(token_id, U256::from_u128(amount))]
}

#[test]
fn foundry_builder() {
    let protocol_parameters = protocol_parameters();
    let foundry_id = FoundryId::build(&id(5), 0, SIMPLE_TOKEN_SCHEME_KIND);
    let alias_1 = alias_condition(1);
    let alias_2 = alias_condition(2);
    let metadata_1 = metadata(1);
    let metadata_2 = metadata(2);

    let mut builder = FoundryOutput::build_with_amount(0, 234, token_scheme(10, 0, 100))
        .with_serial_number(85)
        .add_native_token(native_token(TokenId::from(foundry_id), 1000))
        .with_unlock_conditions(vec![alias_1])
        .add_feature(metadata_1.clone())
        .replace_feature(metadata_2.clone())
        .with_immutable_features(vec![metadata_2.clone()])
        .replace_immutable_feature(metadata_1.clone());

    let output = builder.clone().finish().unwrap();
    assert_eq!(output.serial_number(), 85);
    assert_eq!(output.unlock_conditions().immutable_alias_address(), Some(id(1)));
    assert_eq!(output.features().metadata(), Some(&metadata_2));
    assert_eq!(output.immutable_features().metadata(), Some(&metadata_1));

    builder = builder
        .clear_unlock_conditions()
        .clear_features()
        .clear_immutable_features()
        .replace_unlock_condition(alias_2);
    let output = builder.clone().finish().unwrap();
    assert_eq!(output.unlock_conditions().immutable_alias_address(), Some(id(2)));
    assert!(output.features().is_empty());
    assert!(output.immutable_features().is_empty());

    let output = builder
        .with_minimum_storage_deposit(protocol_parameters.rent_structure())
        .add_unlock_condition(alias_condition(3))
        .finish_with_params(ValidationParams::with_protocol_parameters(&protocol_parameters))
        .unwrap();

    assert_eq!(output.amount(), Output::Foundry(output.clone()).rent_cost(&protocol_parameters.rent_structure()));
}

#[test]
fn foundry_pack_unpack() {
    let protocol_parameters = protocol_parameters();
    let output = sample_foundry_output(protocol_parameters.token_supply());
    let bytes = output.pack_to_vec();
    let output_unpacked = FoundryOutput::unpack_verified(&bytes, &protocol_parameters).unwrap();
    assert_eq!(output, output_unpacked);
}

#[test]
fn foundry_to_from_dto() {
    let protocol_parameters = protocol_parameters();
    let output = sample_foundry_output(protocol_parameters.token_supply());
    let dto = OutputDto::Foundry(FoundryOutputDto::from_output(&output));
    let output_unver = Output::try_from_dto(dto.clone()).unwrap();
    assert_eq!(&output, output_unver.as_foundry());
    let output_ver =
        Output::try_from_dto_with_params(dto, ValidationParams::with_protocol_parameters(&protocol_parameters)).unwrap();
    assert_eq!(&output, output_ver.as_foundry());

    let foundry_id = FoundryId::build(&id(6), 0, SIMPLE_TOKEN_SCHEME_KIND);
    assert_eq!(FOUNDRY_ALLOWED_FEATURES, 4);

    let test_split_dto = |builder: FoundryOutputBuilder, amount: OutputBuilderAmountDto| {
        let output_split = FoundryOutput::try_from_dtos(
            amount,
            Some(builder.native_tokens().to_vec()),
            builder.serial_number(),
            builder.token_scheme(),
            builder.unlock_conditions().to_vec(),
            Some(builder.features().to_vec()),
            Some(builder.immutable_features().to_vec()),
            ValidationParams::with_protocol_parameters(&protocol_parameters),
        )
        .unwrap();
        assert_eq!(
            builder.finish_with_params(ValidationParams::with_protocol_parameters(&protocol_parameters)).unwrap(),
            output_split
        );
    };

    let builder = FoundryOutput::build_with_amount(100, 123, token_scheme(50, 5, 500))
        .add_native_token(native_token(foundry_id, 1000))
        .add_unlock_condition(alias_condition(7))
        .add_immutable_feature(metadata(8))
        .with_features(vec![metadata(9)]);
    test_split_dto(builder, OutputBuilderAmountDto::Amount("100".to_string()));

    let builder =
        FoundryOutput::build_with_minimum_storage_deposit(protocol_parameters.rent_structure(), 123, token_scheme(50, 5, 500))
            .add_native_token(native_token(foundry_id, 1000))
            .add_unlock_condition(alias_condition(7))
            .add_immutable_feature(metadata(8))
            .with_features(vec![metadata(9)]);
    test_split_dto(builder, OutputBuilderAmountDto::MinimumStorageDeposit(protocol_parameters.rent_structure()));
}

#[test]
fn foundry_zero_serial_number_is_refused() {
    let r = FoundryOutput::build_with_amount(10, 0, token_scheme(1, 0, 10)).add_unlock_condition(alias_condition(1)).finish();
    assert_eq!(r, Err(Error::InvalidFoundryZeroSerialNumber));
}

#[test]
fn foundry_needs_alias_condition() {
    let r = FoundryOutput::build_with_amount(10, 1, token_scheme(1, 0, 10)).finish();
    assert_eq!(r, Err(Error::MissingAddressUnlockCondition));
}

#[test]
fn token_scheme_supply_is_checked() {
    let r = SimpleTokenScheme::new(U256::from_u128(5), U256::from_u128(6), U256::from_u128(10));
    assert_eq!(r, Err(Error::InvalidFoundryOutputSupply));
    let r = SimpleTokenScheme::new(U256::from_u128(20), U256::from_u128(5), U256::from_u128(10));
    assert_eq!(r, Err(Error::InvalidFoundryOutputSupply));
    assert!(SimpleTokenScheme::new(U256::from_u128(15), U256::from_u128(5), U256::from_u128(10)).is_ok());
}

#[test]
fn foundry_mint_transition() {
    let current = foundry(100, 0);
    let token_id = current.token_id();
    let input = Vec::new();
    let output = balances(token_id, 50);
    assert_eq!(FoundryOutput::transition_inner(&current, &foundry(150, 0), &input, &output), Ok(()));
    assert_eq!(
        FoundryOutput::transition_inner(&current, &foundry(140, 0), &input, &output),
        Err(StateTransitionError::InconsistentNativeTokensMint)
    );
}

#[test]
fn foundry_plain_transition() {
    let current = foundry(100, 10);
    let token_id = current.token_id();
    let same = balances(token_id, 90);
    assert_eq!(FoundryOutput::transition_inner(&current, &foundry(100, 10), &same, &same), Ok(()));
    assert_eq!(
        FoundryOutput::transition_inner(&current, &foundry(101, 10), &same, &same),
        Err(StateTransitionError::InconsistentNativeTokensTransition)
    );
}

#[test]
fn foundry_melt_transition() {
    let current = foundry(100, 10);
    let token_id = current.token_id();
    let input = balances(token_id, 90);
    let output = balances(token_id, 60);
    assert_eq!(FoundryOutput::transition_inner(&current, &foundry(100, 30), &input, &output), Ok(()));
    assert_eq!(
        FoundryOutput::transition_inner(&current, &foundry(100, 50), &input, &output),
        Err(StateTransitionError::InconsistentNativeTokensMeltBurn)
    );
    assert_eq!(
        FoundryOutput::transition_inner(&current, &foundry(100, 10), &input, &output),
        Err(StateTransitionError::InconsistentNativeTokensMeltBurn)
    );
    assert_eq!(
        FoundryOutput::transition_inner(&current, &foundry(90, 30), &input, &output),
        Err(StateTransitionError::NonMonotonicallyIncreasingNativeTokens)
    );
}

#[test]
fn foundry_immutable_fields_are_kept() {
    let current = foundry(100, 0);
    let other_alias = FoundryOutput::build_with_amount(1000, 1, token_scheme(100, 0, 1_000_000))
        .add_unlock_condition(alias_condition(2))
        .finish()
        .unwrap();
    let none = Vec::new();
    assert_eq!(
        FoundryOutput::transition_inner(&current, &other_alias, &none, &none),
        Err(StateTransitionError::MutatedImmutableField)
    );
    let other_maximum = FoundryOutput::build_with_amount(1000, 1, token_scheme(100, 0, 999_999))
        .add_unlock_condition(alias_condition(1))
        .finish()
        .unwrap();
    assert_eq!(
        FoundryOutput::transition_inner(&current, &other_maximum, &none, &none),
        Err(StateTransitionError::MutatedImmutableField)
    );
}

#[test]
fn foundry_destruction() {
    let current = foundry(100, 40);
    let token_id = current.token_id();
    let context = ValidationContext {
        input_native_tokens: balances(token_id, 60),
        output_native_tokens: Vec::new(),
        input_alias_foundry_counters: Vec::new(),
        output_alias_foundry_counters: Vec::new(),
    };
    assert_eq!(FoundryOutput::destruction(&current, &context), Ok(()));
    let context = ValidationContext { output_native_tokens: balances(token_id, 1), ..context };
    assert_eq!(
        FoundryOutput::destruction(&current, &context),
        Err(StateTransitionError::InconsistentNativeTokensFoundryDestruction)
    );
    let context = ValidationContext {
        input_native_tokens: balances(token_id, 59),
        output_native_tokens: Vec::new(),
        input_alias_foundry_counters: Vec::new(),
        output_alias_foundry_counters: Vec::new(),
    };
    assert_eq!(
        FoundryOutput::destruction(&current, &context),
        Err(StateTransitionError::InconsistentNativeTokensFoundryDestruction)
    );
}

#[test]
fn foundry_creation() {
    let next = foundry(30, 0);
    let token_id = next.token_id();
    let context = ValidationContext {
        input_native_tokens: Vec::new(),
        output_native_tokens: balances(token_id, 30),
        input_alias_foundry_counters: vec![(id(1), 0)],
        output_alias_foundry_counters: vec![(id(1), 1)],
    };
    assert_eq!(FoundryOutput::creation(&next, &context), Ok(()));

    let no_alias = ValidationContext { input_alias_foundry_counters: Vec::new(), ..context };
    assert_eq!(FoundryOutput::creation(&next, &no_alias), Err(StateTransitionError::MissingAliasForFoundry));

    let context = ValidationContext {
        input_native_tokens: Vec::new(),
        output_native_tokens: balances(token_id, 30),
        input_alias_foundry_counters: vec![(id(1), 1)],
        output_alias_foundry_counters: vec![(id(1), 1)],
    };
    assert_eq!(FoundryOutput::creation(&next, &context), Err(StateTransitionError::InconsistentFoundrySerialNumber));

    let context = ValidationContext {
        input_native_tokens: Vec::new(),
        output_native_tokens: balances(token_id, 29),
        input_alias_foundry_counters: vec![(id(1), 0)],
        output_alias_foundry_counters: vec![(id(1), 1)],
    };
    assert_eq!(
        FoundryOutput::creation(&next, &context),
        Err(StateTransitionError::InconsistentNativeTokensFoundryCreation)
    );
}

#[test]
fn foundry_id_is_alias_serial_and_kind() {
    let output = foundry(1, 0);
    let foundry_id = output.id();
    assert_eq!(foundry_id, TokenId { alias_id: id(1), serial_number: 1, token_scheme_kind: 0 });
    assert_eq!(output.token_id(), foundry_id);
    assert_eq!(output.chain_id(), iota_outputs::ChainId::Foundry(foundry_id));
}
