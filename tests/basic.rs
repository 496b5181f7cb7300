use iota_outputs::basic::BASIC_ALLOWED_FEATURES;
use iota_outputs::dto::OutputBuilderAmountDto;
use iota_outputs::token::SIMPLE_TOKEN_SCHEME_KIND;
use iota_outputs::{
    Address, BasicOutput, BasicOutputDto, Error, Feature, FoundryId, Id32, NativeToken, Output, OutputBuilderAmount,
    OutputDto, ProtocolParameters, RentStructure, TokenId, UnlockCondition, ValidationParams, U256,
};

fn protocol_parameters() -> ProtocolParameters {
    ProtocolParameters::new(1_813_620_509_061_365, RentStructure::new(100, 10, 1))
}

fn id(n: u128) -> Id32 {
    Id32 { lo: n, hi: n.wrapping_mul(31) }
}

fn ed25519(n: u128) -> Address {
    Address::Ed25519(id(n))
}

fn address_unlock_condition(n: u128) -> UnlockCondition {
    UnlockCondition::Address(ed25519(n))
}

fn native_token(foundry_id: FoundryId, amount: u128) -> NativeToken {
    NativeToken::new(foundry_id, U256::from_u128(amount)).unwrap()
}

fn sample_basic_output(token_supply: u64) -> BasicOutput {
    let foundry_id = FoundryId::build(&id(9), 4, SIMPLE_TOKEN_SCHEME_KIND);
    BasicOutput::build_with_amount(1_000_000)
        .with_mana(77)
        .add_native_token(native_token(foundry_id, 1000))
        .add_unlock_condition(address_unlock_condition(1))
        .add_unlock_condition(UnlockCondition::Timelock(1_700_000_000))
        .add_feature(Feature::sender(ed25519(2)))
        .add_feature(Feature::metadata(vec![1, 2, 3, 4]).unwrap())
        .add_feature(Feature::tag(vec![7, 7]).unwrap())
        .finish_with_params(ValidationParams::with_token_supply(token_supply))
        .unwrap()
}

#[test]
fn basic_builder() {
    let protocol_parameters = protocol_parameters();
    let foundry_id = FoundryId::build(&id(40), 0, SIMPLE_TOKEN_SCHEME_KIND);
    let address_1 = address_unlock_condition(1);
    let address_2 = address_unlock_condition(2);
    let sender_1 = Feature::sender(ed25519(3));
    let sender_2 = Feature::sender(ed25519(4));

    let mut builder = BasicOutput::build_with_amount(0)
        .add_native_token(native_token(TokenId::from(foundry_id), 1000))
        .add_unlock_condition(address_1)
        .add_feature(sender_1.clone())
        .replace_feature(sender_2.clone());

    let output = builder.clone().finish().unwrap();
    assert_eq!(output.unlock_conditions().address(), Some(ed25519(1)));
    assert_eq!(output.features().sender(), Some(&sender_2));

    builder = builder.clear_unlock_conditions().clear_features().replace_unlock_condition(address_2);
    let output = builder.clone().finish().unwrap();
    assert_eq!(output.unlock_conditions().address(), Some(ed25519(2)));
    assert!(output.features().is_empty());

    let metadata = Feature::metadata(vec![42, 43, 44]).unwrap();

    let output = builder
        .with_minimum_storage_deposit(protocol_parameters.rent_structure())
        .add_unlock_condition(address_unlock_condition(5))
        .with_features(vec![metadata.clone(), sender_1.clone()])
        .finish_with_params(ValidationParams::with_protocol_parameters(&protocol_parameters))
        .unwrap();

    assert_eq!(output.amount(), output.rent_cost(&protocol_parameters.rent_structure()));
    assert_eq!(output.features().metadata(), Some(&metadata));
    assert_eq!(output.features().sender(), Some(&sender_1));
}

#[test]
fn basic_pack_unpack() {
    let protocol_parameters = protocol_parameters();
    let output = sample_basic_output(protocol_parameters.token_supply());
    let bytes = output.pack_to_vec();
    let output_unpacked = BasicOutput::unpack_verified(&bytes, &protocol_parameters).unwrap();
    assert_eq!(output, output_unpacked);
}

#[test]
fn basic_to_from_dto() {
    let protocol_parameters = protocol_parameters();
    let output = sample_basic_output(protocol_parameters.token_supply());
    let dto = OutputDto::Basic(BasicOutputDto::from_output(&output));
    let output_unver = Output::try_from_dto(dto.clone()).unwrap();
    assert_eq!(&output, output_unver.as_basic());
    let output_ver =
        Output::try_from_dto_with_params(dto, ValidationParams::with_protocol_parameters(&protocol_parameters)).unwrap();
    assert_eq!(&output, output_ver.as_basic());

    let output_split = BasicOutput::try_from_dtos(
        OutputBuilderAmount::Amount(output.amount()),
        output.mana(),
        Some(output.native_tokens().to_vec()),
        output.unlock_conditions().to_vec(),
        Some(output.features().to_vec()),
        ValidationParams::with_token_supply(protocol_parameters.token_supply()),
    )
    .unwrap();
    assert_eq!(output, output_split);

    let foundry_id = FoundryId::build(&id(41), 0, SIMPLE_TOKEN_SCHEME_KIND);
    let address = address_unlock_condition(6);
    let allowed_features = vec![
        Feature::sender(ed25519(7)),
        Feature::metadata(vec![1; 20]).unwrap(),
        Feature::tag(vec![2; 10]).unwrap(),
    ];
    assert_eq!(BASIC_ALLOWED_FEATURES, 1 | 4 | 8);

    let test_split_dto = |builder: iota_outputs::BasicOutputBuilder| {
        let output_split = BasicOutput::try_from_dtos(
            builder.amount(),
            builder.mana(),
            Some(builder.native_tokens().to_vec()),
            builder.unlock_conditions().to_vec(),
            Some(builder.features().to_vec()),
            ValidationParams::with_token_supply(protocol_parameters.token_supply()),
        )
        .unwrap();
        assert_eq!(
            builder
                .finish_with_params(ValidationParams::with_token_supply(protocol_parameters.token_supply()))
                .unwrap(),
            output_split
        );
    };

    let builder = BasicOutput::build_with_amount(100)
        .add_native_token(native_token(foundry_id, 1000))
        .add_unlock_condition(address)
        .with_features(allowed_features.clone());
    test_split_dto(builder);

    let builder = BasicOutput::build_with_minimum_storage_deposit(protocol_parameters.rent_structure())
        .add_native_token(native_token(foundry_id, 1000))
        .add_unlock_condition(address)
        .with_features(allowed_features);
    test_split_dto(builder);
}

#[test]
fn basic_minimum_storage_deposit_is_own_rent_cost() {
    let rs = RentStructure::new(100, 10, 1);
    let output = BasicOutput::build_with_minimum_storage_deposit(rs)
        .add_unlock_condition(address_unlock_condition(1))
        .finish()
        .unwrap();
    // Amount 8, mana 8, three counts of 1, the address condition 34: 53 bytes, and the kind byte.
    assert_eq!(output.pack_to_vec().len(), 53);
    assert_eq!(output.amount(), 100 * (10 * 34 + (40 + 1 + 53)));
    assert_eq!(output.amount(), output.rent_cost(&rs));
}

#[test]
fn add_unlock_condition_keeps_first_replace_keeps_last() {
    let added = BasicOutput::build_with_amount(10)
        .add_unlock_condition(address_unlock_condition(1))
        .add_unlock_condition(address_unlock_condition(2))
        .finish()
        .unwrap();
    assert_eq!(added.unlock_conditions().len(), 1);
    assert_eq!(added.address(), ed25519(1));

    let replaced = BasicOutput::build_with_amount(10)
        .replace_unlock_condition(address_unlock_condition(1))
        .replace_unlock_condition(address_unlock_condition(2))
        .finish()
        .unwrap();
    assert_eq!(replaced.unlock_conditions().len(), 1);
    assert_eq!(replaced.address(), ed25519(2));
}

#[test]
fn basic_without_unlock_conditions_is_refused() {
    assert_eq!(BasicOutput::build_with_amount(10).finish(), Err(Error::MissingAddressUnlockCondition));
}

#[test]
fn basic_disallowed_unlock_condition_and_feature() {
    let r = BasicOutput::build_with_amount(10)
        .add_unlock_condition(address_unlock_condition(1))
        .add_unlock_condition(UnlockCondition::GovernorAddress(ed25519(2)))
        .finish();
    assert_eq!(r, Err(Error::DisallowedUnlockCondition { index: 1, kind: 5 }));

    let r = BasicOutput::build_with_amount(10)
        .add_unlock_condition(address_unlock_condition(1))
        .add_feature(Feature::issuer(ed25519(2)))
        .finish();
    assert_eq!(r, Err(Error::DisallowedFeature { index: 0, kind: 1 }));
}

#[test]
fn basic_amount_above_token_supply_is_refused() {
    let r = BasicOutput::build_with_amount(1001)
        .add_unlock_condition(address_unlock_condition(1))
        .finish_with_params(ValidationParams::with_token_supply(1000));
    assert_eq!(r, Err(Error::InvalidOutputAmount(1001)));
}

#[test]
fn sufficient_storage_deposit_covers_the_rent() {
    let rs = RentStructure::new(100, 10, 1);
    let return_address = ed25519(8);
    let builder = BasicOutput::build_with_amount(0)
        .add_unlock_condition(address_unlock_condition(1))
        .with_sufficient_storage_deposit(return_address, rs, 1_000_000_000)
        .unwrap();
    let rent = builder.rent_cost(&rs);
    // 53 bytes of the address-only output, and 42 of the storage deposit return condition.
    assert_eq!(rent, 100 * (10 * 34 + (40 + 1 + 53 + 42)));
    assert_eq!(builder.amount(), OutputBuilderAmount::Amount(rent));
    let output = builder.finish().unwrap();
    assert_eq!(output.amount(), rent);
    assert_eq!(output.amount(), output.rent_cost(&rs));
    let sdr = output.unlock_conditions().find(1).unwrap();
    assert_eq!(sdr, UnlockCondition::StorageDepositReturn { return_address, amount: rent });
}

#[test]
fn sufficient_storage_deposit_keeps_enough_amount() {
    let rs = RentStructure::new(100, 10, 1);
    let builder = BasicOutput::build_with_amount(1_000_000)
        .add_unlock_condition(address_unlock_condition(1))
        .with_sufficient_storage_deposit(ed25519(8), rs, 1_000_000_000)
        .unwrap();
    assert_eq!(builder.amount(), OutputBuilderAmount::Amount(1_000_000));
    assert_eq!(builder.unlock_conditions().len(), 1);
}

#[test]
fn sufficient_storage_deposit_beyond_supply_is_refused() {
    let rs = RentStructure::new(100, 10, 1);
    let r = BasicOutput::build_with_amount(0)
        .add_unlock_condition(address_unlock_condition(1))
        .with_sufficient_storage_deposit(ed25519(8), rs, 10);
    assert_eq!(r.err(), Some(Error::InvalidStorageDepositAmount(100 * (10 * 34 + (40 + 1 + 53 + 42)))));
}

#[test]
fn unpack_rejects_truncated_and_trailing_input() {
    let protocol_parameters = protocol_parameters();
    let output = sample_basic_output(protocol_parameters.token_supply());
    let bytes = output.pack_to_vec();
    assert!(BasicOutput::unpack_verified(&bytes[..bytes.len() - 1], &protocol_parameters).is_err());
    let mut longer = bytes.clone();
    longer.push(0);
    assert_eq!(BasicOutput::unpack_verified(&longer, &protocol_parameters), Err(Error::TrailingBytes));
    assert_eq!(BasicOutput::unpack_unverified(&bytes), Ok(output));
}

#[test]
fn unpack_unverified_skips_the_rules() {
    let output = BasicOutput::build_with_amount(5).add_unlock_condition(address_unlock_condition(1)).finish().unwrap();
    let mut bytes = output.pack_to_vec();
    // Turn the address condition into a governor condition, which a basic output may not hold.
    let at = 8 + 8 + 1 + 1;
    assert_eq!(bytes[at], 0);
    bytes[at] = 5;
    assert!(BasicOutput::unpack_unverified(&bytes).is_ok());
    assert_eq!(
        BasicOutput::unpack_verified(&bytes, &protocol_parameters()),
        Err(Error::MissingAddressUnlockCondition)
    );
}

#[test]
fn output_pack_starts_with_kind() {
    let output = Output::Basic(sample_basic_output(u64::MAX));
    let bytes = output.pack_to_vec();
    assert_eq!(bytes[0], 3);
    assert_eq!(Output::unpack(&bytes, Some(u64::MAX)), Ok(output.clone()));
    let rs = RentStructure::new(100, 10, 1);
    assert_eq!(output.rent_cost(&rs), 100 * (10 * 34 + (40 + bytes.len() as u64)));
    let mut wrong = bytes;
    wrong[0] = 9;
    assert_eq!(Output::unpack(&wrong, None), Err(Error::InvalidOutputKind(9)));
}

#[test]
fn dto_amount_must_be_decimal() {
    let amount = OutputBuilderAmountDto::Amount("12a".to_string());
    assert!(matches!(amount, OutputBuilderAmountDto::Amount(_)));
    assert_eq!(iota_outputs::dto::parse_amount(&"18446744073709551615".to_string(), "amount"), Ok(u64::MAX));
    assert_eq!(
        iota_outputs::dto::parse_amount(&"18446744073709551616".to_string(), "amount"),
        Err(Error::InvalidField("amount"))
    );
    assert_eq!(iota_outputs::dto::parse_amount(&"+7".to_string(), "amount"), Ok(7));
    assert_eq!(iota_outputs::dto::parse_amount(&"".to_string(), "amount"), Err(Error::InvalidField("amount")));
}

#[test]
fn simple_deposit_address_only_for_plain_outputs() {
    let plain = BasicOutput::build_with_amount(5).add_unlock_condition(address_unlock_condition(1)).finish().unwrap();
    assert_eq!(plain.simple_deposit_address(), Some(ed25519(1)));
    let tagged = BasicOutput::build_with_amount(5)
        .add_unlock_condition(address_unlock_condition(1))
        .add_feature(Feature::tag(vec![1]).unwrap())
        .finish()
        .unwrap();
    assert_eq!(tagged.simple_deposit_address(), None);
}

#[test]
fn expired_output_is_locked_to_return_address() {
    let output = BasicOutput::build_with_amount(5)
        .add_unlock_condition(address_unlock_condition(1))
        .add_unlock_condition(UnlockCondition::Expiration { return_address: ed25519(2), timestamp: 100 })
        .finish()
        .unwrap();
    assert_eq!(output.locked_address(99), ed25519(1));
    assert_eq!(output.locked_address(100), ed25519(2));
    let plain = BasicOutput::build_with_amount(5).add_unlock_condition(address_unlock_condition(1)).finish().unwrap();
    assert_eq!(plain.locked_address(1000), ed25519(1));
}

#[test]
fn native_tokens_keep_first_of_each_identifier() {
    let foundry_id = FoundryId::build(&id(9), 4, SIMPLE_TOKEN_SCHEME_KIND);
    let other = FoundryId::build(&id(9), 5, SIMPLE_TOKEN_SCHEME_KIND);
    let output = BasicOutput::build_with_amount(5)
        .with_native_tokens(vec![native_token(other, 3), native_token(foundry_id, 1), native_token(foundry_id, 2)])
        .add_unlock_condition(address_unlock_condition(1))
        .finish()
        .unwrap();
    assert_eq!(output.native_tokens().to_vec(), vec![native_token(foundry_id, 1), native_token(other, 3)]);
    assert_eq!(NativeToken::new(foundry_id, U256::zero()), Err(Error::NativeTokensNullAmount));
}

#[test]
fn dto_conversion_passes_on_finish_errors() {
    let dto = BasicOutputDto {
        kind: 3,
        amount: 10,
        mana: 0,
        native_tokens: Vec::new(),
        unlock_conditions: vec![address_unlock_condition(1), UnlockCondition::GovernorAddress(ed25519(2))],
        features: Vec::new(),
    };
    assert_eq!(
        Output::try_from_dto(OutputDto::Basic(dto.clone())),
        Err(Error::DisallowedUnlockCondition { index: 1, kind: 5 })
    );
    let no_address = BasicOutputDto { unlock_conditions: Vec::new(), ..dto.clone() };
    assert_eq!(
        Output::try_from_dto(OutputDto::Basic(no_address)),
        Err(Error::MissingAddressUnlockCondition)
    );
    let plain = BasicOutputDto { unlock_conditions: vec![address_unlock_condition(1)], ..dto };
    assert_eq!(
        Output::try_from_dto_with_params(OutputDto::Basic(plain), ValidationParams::with_token_supply(5)),
        Err(Error::InvalidOutputAmount(10))
    );
    let output = BasicOutput::build_with_amount(10)
        .add_unlock_condition(address_unlock_condition(1))
        .finish_output(ValidationParams::with_token_supply(9));
    assert_eq!(output, Err(Error::InvalidOutputAmount(10)));
}
