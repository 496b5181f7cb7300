use iota_outputs::{
    Address, DelegationId, DelegationOutput, DelegationOutputDto, Error, Feature, Id32, Output, OutputDto, OutputId,
    ProtocolParameters, RentStructure, UnlockCondition, ValidationParams,
};

fn id(n: u128) -> Id32 {
    Id32 { lo: n, hi: n.wrapping_mul(13) }
}

fn sample() -> DelegationOutput {
    DelegationOutput::build_with_amount(2000, 1500, DelegationId::null(), id(4))
        .with_start_epoch(3)
        .with_end_epoch(9)
        .add_unlock_condition(UnlockCondition::Address(Address::Ed25519(id(1))))
        .add_immutable_feature(Feature::issuer(Address::Ed25519(id(2))))
        .finish()
        .unwrap()
}

#[test]
fn delegation_pack_unpack() {
    let params = ProtocolParameters::new(1_000_000, RentStructure::new(100, 10, 1));
    let output = sample();
    let bytes = output.pack_to_vec();
    assert_eq!(bytes.len(), 8 + 8 + 32 + 32 + 8 + 8 + 1 + 34 + 1 + 34);
    assert_eq!(DelegationOutput::unpack_verified(&bytes, &params), Ok(output));
}

#[test]
fn delegation_to_from_dto() {
    let output = sample();
    let dto = DelegationOutputDto::from_output(&output);
    assert_eq!(dto.amount, "2000");
    assert_eq!(dto.delegated_amount, "1500");
    let back = Output::try_from_dto(OutputDto::Delegation(dto.clone())).unwrap();
    assert_eq!(&output, back.as_delegation());
    let bad = DelegationOutputDto { delegated_amount: "x".to_string(), ..dto };
    assert_eq!(DelegationOutput::try_from_dto(bad, ValidationParams::new()), Err(Error::InvalidField("delegatedAmount")));
}

#[test]
fn delegation_rules() {
    let r = DelegationOutput::build_with_amount(10, 5, DelegationId::null(), id(4))
        .add_unlock_condition(UnlockCondition::Address(Address::Ed25519(id(1))))
        .add_unlock_condition(UnlockCondition::Timelock(5))
        .finish();
    assert_eq!(r, Err(Error::DisallowedUnlockCondition { index: 1, kind: 2 }));
    let r = DelegationOutput::build_with_amount(10, 5, DelegationId::null(), id(4))
        .add_unlock_condition(UnlockCondition::Address(Address::Ed25519(id(1))))
        .add_immutable_feature(Feature::sender(Address::Ed25519(id(2))))
        .finish();
    assert_eq!(r, Err(Error::DisallowedFeature { index: 0, kind: 0 }));
}

#[test]
fn delegation_minimum_storage_deposit() {
    let rs = RentStructure::new(100, 10, 1);
    let output = DelegationOutput::build_with_minimum_storage_deposit(rs, 5, DelegationId::null(), id(4))
        .add_unlock_condition(UnlockCondition::Address(Address::Ed25519(id(1))))
        .finish()
        .unwrap();
    assert_eq!(output.amount(), output.rent_cost(&rs));
    assert_eq!(output.amount(), 100 * (10 * 34 + (40 + 1 + 8 + 8 + 32 + 32 + 8 + 8 + 1 + 34 + 1)));
}

#[test]
fn delegation_id_from_output_id() {
    let output = sample();
    let output_id_1 = OutputId::new(id(20), 0);
    let output_id_2 = OutputId::new(id(20), 1);
    let derived_1 = output.delegation_id_non_null(&output_id_1);
    let derived_2 = output.delegation_id_non_null(&output_id_2);
    assert!(!derived_1.is_null());
    assert_ne!(derived_1, derived_2);
    assert_ne!(derived_1.0, output_id_1.transaction_id);
    assert_eq!(derived_1, DelegationId::from_output_id(&output_id_1));
    let set = DelegationId(id(3));
    assert_eq!(set.or_from_output_id(&output_id_1), set);
}
