use iota_outputs::{AccountIdentifier, OutputKind};

#[test]
fn output_kind_names() {
    assert_eq!(OutputKind::from_str("Alias"), Some(OutputKind::Alias));
    assert_eq!(OutputKind::from_str("Treasury"), Some(OutputKind::Treasury));
    assert_eq!(OutputKind::from_str("alias"), None);
}

#[test]
fn account_identifier_from_str() {
    assert_eq!(AccountIdentifier::from_str("12"), AccountIdentifier::Index(12));
    assert_eq!(AccountIdentifier::from_str("4294967296"), AccountIdentifier::Alias("4294967296".to_string()));
    assert_eq!(AccountIdentifier::from_str("savings"), AccountIdentifier::Alias("savings".to_string()));
    assert_eq!(AccountIdentifier::from_index(3), AccountIdentifier::Index(3));
}

#[test]
fn random_public_keys_differ() {
    let a = iota_outputs::public_key::rand_public_key().unwrap();
    let b = iota_outputs::public_key::rand_public_key().unwrap();
    assert_ne!(a, b);
    let mut keys = Vec::new();
    iota_outputs::public_key::insert_public_key(&mut keys, a);
    iota_outputs::public_key::insert_public_key(&mut keys, a);
    iota_outputs::public_key::insert_public_key(&mut keys, b);
    assert_eq!(keys, vec![a, b]);
}
