use pvault::account::{is_valid_name, AccountKey, InvalidAccount, MAX_NAMED_LENGTH};
use pvault::proto::account_id::Kind;
use pvault::proto::AccountId;

#[test]
fn accepts_well_formed_names() {
    assert!(is_valid_name("shop:till.main"));
    assert!(is_valid_name("towny:town-42"));
}

#[test]
fn rejects_malformed_names() {
    assert!(!is_valid_name("nocolon"));
    assert!(!is_valid_name(":key"));
    assert!(!is_valid_name("ns:"));
    assert!(!is_valid_name("ns:a:b"));
    assert!(!is_valid_name("ns:has space"));
    assert!(!is_valid_name(&format!("ns:{}", "x".repeat(MAX_NAMED_LENGTH))));
}

#[test]
fn storage_keys_round_trip() {
    for key in [
        AccountKey::Player([0xab; 16]),
        AccountKey::Named("shop:till".into()),
    ] {
        assert_eq!(AccountKey::from_storage_key(&key.storage_key()), Ok(key));
    }
}

#[test]
fn rejects_wrong_length_uuids() {
    let id = AccountId {
        kind: Some(Kind::Player(vec![1, 2, 3])),
    };
    assert_eq!(AccountKey::from_proto(Some(&id)), Err(InvalidAccount::BadUuid));
}

#[test]
fn a_name_of_exactly_the_maximum_length_is_accepted() {
    let name = format!("ns:{}", "x".repeat(MAX_NAMED_LENGTH - 3));
    assert_eq!(name.len(), MAX_NAMED_LENGTH);
    assert!(is_valid_name(&name));
    assert!(!is_valid_name("ns:caf\u{e9}"));
}

#[test]
fn player_keys_are_stored_as_lowercase_hex() {
    let mut uuid = [0u8; 16];
    for (i, b) in uuid.iter_mut().enumerate() {
        *b = (i as u8) * 17;
    }
    let key = AccountKey::Player(uuid);
    assert_eq!(key.storage_key(), "00112233445566778899aabbccddeeff");
    assert_eq!(AccountKey::from_storage_key("00112233445566778899AABBCCDDEEFF"), Ok(key));
}

#[test]
fn storage_keys_that_do_not_read_are_refused() {
    assert_eq!(AccountKey::from_storage_key("abc"), Err(InvalidAccount::BadUuid));
    assert_eq!(
        AccountKey::from_storage_key("zz112233445566778899aabbccddeeff"),
        Err(InvalidAccount::BadUuid)
    );
    assert_eq!(AccountKey::from_storage_key("shop:"), Err(InvalidAccount::BadName));
    // `u8::from_str_radix` takes a leading `+`, so "+f" spells 15.
    assert_eq!(
        AccountKey::from_storage_key("+f112233445566778899aabbccddeeff"),
        Ok(AccountKey::Player([
            15, 0x11, 0x22, 0x33, 0x44, 0x55, 0x66, 0x77, 0x88, 0x99, 0xaa, 0xbb, 0xcc, 0xdd, 0xee,
            0xff
        ]))
    );
}

#[test]
fn account_ids_read_off_the_wire() {
    assert_eq!(AccountKey::from_proto(None), Err(InvalidAccount::Missing));
    assert_eq!(
        AccountKey::from_proto(Some(&AccountId { kind: None })),
        Err(InvalidAccount::Missing)
    );
    assert_eq!(
        AccountKey::from_proto(Some(&AccountId::named("shop", "till"))),
        Ok(AccountKey::Named("shop:till".into()))
    );
    assert_eq!(
        AccountKey::from_proto(Some(&AccountId::named("shop", "bad key"))),
        Err(InvalidAccount::BadName)
    );
    let key = AccountKey::Player([9; 16]);
    assert_eq!(AccountKey::from_proto(Some(&key.to_proto())), Ok(key));
}

#[test]
fn refusals_read_as_sentences() {
    assert_eq!(InvalidAccount::Missing.to_string(), "no account was given");
    assert_eq!(
        InvalidAccount::BadUuid.to_string(),
        "player accounts are identified by a 16-byte uuid"
    );
    assert_eq!(
        InvalidAccount::BadName.to_string(),
        "named accounts look like \"namespace:key\", up to 128 characters of [a-zA-Z0-9_.-]"
    );
}
