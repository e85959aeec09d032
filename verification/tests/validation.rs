use polyproto::attributes::AttributeTypeAndValue;
use polyproto::errors::ConstraintError;
use polyproto::name::{Name, RelativeDistinguishedName, Target};
use polyproto::name::{validate_dc_matches_dc_in_uid, validate_uid_username_matches_cn};

fn oid_for(key: &str) -> Vec<u64> {
    match key.to_ascii_lowercase().as_str() {
        "cn" => vec![2, 5, 4, 3],
        "dc" => vec![0, 9, 2342, 19200300, 100, 1, 25],
        "uid" => vec![0, 9, 2342, 19200300, 100, 1, 1],
        "uniqueidentifier" => vec![0, 9, 2342, 19200300, 100, 1, 44],
        _ => vec![2, 5, 4, 11],
    }
}

/// Build a `Name` from conventional DN string notation. The string lists
/// components most specific first, while `Name` holds them in the opposite
/// order, as the external parsers of this notation do.
fn name_from_str(s: &str) -> Name {
    let mut rdns: Vec<RelativeDistinguishedName> = Vec::new();
    for part in s.split(',').rev() {
        let (key, value) = part.split_once('=').expect("each component must be key=value");
        rdns.push(RelativeDistinguishedName(vec![AttributeTypeAndValue::new(
            oid_for(key),
            value.as_bytes().to_vec(),
        )]));
    }
    Name(rdns)
}

fn first_value(n: &Name) -> &Vec<u8> {
    &n.0[0].0[0].value
}

#[test]
fn test_dc_matches_dc_in_uid() {
    let good_name = name_from_str(
        "CN=flori,DC=polyphony,DC=chat,UID=flori@polyphony.chat,uniqueIdentifier=client1",
    );
    let bad_name = name_from_str(
        "CN=flori,DC=polyphony,DC=chat,UID=flori@polyphonyy.chat,uniqueIdentifier=client1",
    );
    assert!(good_name.validate(Some(Target::Actor)).is_ok());
    assert!(bad_name.validate(Some(Target::Actor)).is_err());
    let bad_name = name_from_str(
        "CN=flori,DC=polyphony,DC=chat,UID=flori@polyphony.cat,uniqueIdentifier=client1",
    );
    assert!(bad_name.validate(Some(Target::Actor)).is_err());
    assert!(bad_name.validate(Some(Target::Actor)).is_err());
    let bad_name = name_from_str(
        "CN=flori,DC=polyphony,DC=chat,UID=flori@thisis.polyphony.chat,uniqueIdentifier=client1",
    );
    assert!(bad_name.validate(Some(Target::Actor)).is_err());
}

#[test]
fn cn_has_to_match_uid_name() {
    let cn = name_from_str("cn=bitfl0wer");
    let uid = name_from_str("uid=flori@localhost");
    assert!(validate_uid_username_matches_cn(first_value(&uid), first_value(&cn)).is_err());
    let cn = name_from_str("cn=flori");
    assert!(validate_uid_username_matches_cn(first_value(&uid), first_value(&cn)).is_ok());
    let good_name = name_from_str(
        "CN=flori,DC=polyphony,DC=chat,UID=flori@polyphony.chat,uniqueIdentifier=client1",
    );
    let bad_name = name_from_str(
        "CN=bitfl0wer,DC=polyphony,DC=chat,UID=flori@polyphony.chat,uniqueIdentifier=client1",
    );
    assert!(good_name.validate(None).is_ok());
    assert!(bad_name.validate(None).is_err());
    assert!(bad_name.validate(Some(Target::Actor)).is_err());
    assert!(bad_name.validate(Some(Target::HomeServer)).is_err());
    assert!(good_name.validate(Some(Target::Actor)).is_ok());
    assert!(good_name.validate(Some(Target::HomeServer)).is_err());
}

#[test]
fn changed_dc_label_is_domain_mismatch() {
    for changed in [
        "CN=flori,DC=polyphonyy,DC=chat,UID=flori@polyphony.chat,uniqueIdentifier=client1",
        "CN=flori,DC=polyphony,DC=cat,UID=flori@polyphony.chat,uniqueIdentifier=client1",
    ] {
        let name = name_from_str(changed);
        match name.validate(Some(Target::Actor)) {
            Err(ConstraintError::Malformed(Some(reason))) => {
                assert!(reason.contains("do not match"));
            }
            other => panic!("expected Malformed, got {:?}", other),
        }
    }
}

#[test]
fn two_common_names_out_of_bounds() {
    let name = name_from_str(
        "CN=flori,CN=fl0wer,DC=polyphony,DC=chat,UID=flori@polyphony.chat,uniqueIdentifier=client1",
    );
    for target in [None, Some(Target::Actor), Some(Target::HomeServer)] {
        match name.validate(target) {
            Err(ConstraintError::OutOfBounds { lower, upper, actual, .. }) => {
                assert_eq!((lower, upper, actual), (1, 1, 2));
            }
            other => panic!("expected OutOfBounds, got {:?}", other),
        }
    }
}

#[test]
fn missing_domain_component_out_of_bounds() {
    let name = name_from_str("CN=flori");
    match name.validate(None) {
        Err(ConstraintError::OutOfBounds { lower, upper, actual, .. }) => {
            assert_eq!((lower, upper, actual), (1, 255, 0));
        }
        other => panic!("expected OutOfBounds, got {:?}", other),
    }
    // With a UID present, the domain reconstruction rule fires first and
    // reports the mismatch instead of the missing Domain Component.
    let name = name_from_str("CN=flori,UID=flori@polyphony.chat,uniqueIdentifier=client1");
    match name.validate(None) {
        Err(ConstraintError::Malformed(Some(_))) => {}
        other => panic!("expected Malformed, got {:?}", other),
    }
}

#[test]
fn home_server_rules() {
    let plain = name_from_str("CN=example,DC=polyphony,DC=chat");
    assert!(plain.validate(Some(Target::HomeServer)).is_ok());
    let with_uid = name_from_str(
        "CN=flori,DC=polyphony,DC=chat,UID=flori@polyphony.chat,uniqueIdentifier=client1",
    );
    match with_uid.validate(Some(Target::HomeServer)) {
        Err(ConstraintError::OutOfBounds { lower, upper, actual, .. }) => {
            assert_eq!((lower, upper, actual), (0, 0, 1));
        }
        other => panic!("expected OutOfBounds, got {:?}", other),
    }
}

#[test]
fn uid_and_unique_identifier_must_pair() {
    let only_uid = name_from_str("CN=flori,DC=polyphony,DC=chat,UID=flori@polyphony.chat");
    match only_uid.validate(None) {
        Err(ConstraintError::OutOfBounds { lower, upper, actual, reason }) => {
            assert_eq!((lower, upper, actual), (1, 1, 0));
            assert!(reason.contains("only UID found"));
        }
        other => panic!("expected OutOfBounds, got {:?}", other),
    }
    let only_session = name_from_str("CN=flori,DC=polyphony,DC=chat,uniqueIdentifier=client1");
    match only_session.validate(None) {
        Err(ConstraintError::OutOfBounds { lower, upper, actual, reason }) => {
            assert_eq!((lower, upper, actual), (1, 1, 0));
            assert!(reason.contains("only uniqueIdentifier found"));
        }
        other => panic!("expected OutOfBounds, got {:?}", other),
    }
}

#[test]
fn too_many_uid_or_unique_identifier() {
    let two_uids = name_from_str(
        "DC=polyphony,DC=chat,UID=flori@polyphony.chat,UID=flori@polyphony.chat,uniqueIdentifier=client1",
    );
    match two_uids.validate(None) {
        Err(ConstraintError::OutOfBounds { lower, upper, actual, .. }) => {
            assert_eq!((lower, upper, actual), (0, 1, 2));
        }
        other => panic!("expected OutOfBounds, got {:?}", other),
    }
    let two_sessions = name_from_str(
        "DC=polyphony,DC=chat,UID=flori@polyphony.chat,uniqueIdentifier=client1,uniqueIdentifier=client2",
    );
    match two_sessions.validate(None) {
        Err(ConstraintError::OutOfBounds { lower, upper, actual, .. }) => {
            assert_eq!((lower, upper, actual), (0, 1, 2));
        }
        other => panic!("expected OutOfBounds, got {:?}", other),
    }
}

#[test]
fn invalid_federation_id_is_malformed() {
    let name = name_from_str(
        "CN=flori,DC=polyphony,DC=chat,UID=NOTANFID,uniqueIdentifier=client1",
    );
    match name.validate(None) {
        Err(ConstraintError::Malformed(Some(reason))) => {
            assert!(reason.contains("Federation ID"));
        }
        other => panic!("expected Malformed, got {:?}", other),
    }
}

#[test]
fn invalid_session_id_is_malformed() {
    let name = name_from_str(
        "CN=flori,DC=polyphony,DC=chat,UID=flori@polyphony.chat,uniqueIdentifier=ccccccccccccccccccccccccccccccccc",
    );
    match name.validate(None) {
        Err(ConstraintError::Malformed(Some(reason))) => {
            assert!(reason.contains("Session ID"));
        }
        other => panic!("expected Malformed, got {:?}", other),
    }
}

#[test]
fn actor_without_uid_is_malformed() {
    let name = name_from_str("CN=example,DC=polyphony,DC=chat");
    match name.validate(Some(Target::Actor)) {
        Err(ConstraintError::Malformed(Some(reason))) => {
            assert!(reason.contains("@"));
        }
        other => panic!("expected Malformed, got {:?}", other),
    }
}

#[test]
fn domain_check_direct() {
    let dcs = vec![b"polyphony".to_vec(), b"chat".to_vec()];
    assert!(validate_dc_matches_dc_in_uid(&dcs, &b"flori@polyphony.chat".to_vec()).is_ok());
    assert!(validate_dc_matches_dc_in_uid(&dcs, &b"flori@polyphony.cat".to_vec()).is_err());
    assert!(validate_dc_matches_dc_in_uid(&dcs, &b"floripolyphony.chat".to_vec()).is_err());
    assert!(
        validate_dc_matches_dc_in_uid(&dcs, &b"flori@polyphony.chat.extra".to_vec()).is_err()
    );
    // Trailing Domain Components beyond the UID's segments are not compared.
    let longer = vec![b"polyphony".to_vec(), b"chat".to_vec(), b"sub".to_vec()];
    assert!(validate_dc_matches_dc_in_uid(&longer, &b"flori@polyphony.chat".to_vec()).is_ok());
}

#[test]
fn validation_is_idempotent() {
    let name = name_from_str(
        "CN=flori,DC=polyphony,DC=chat,UID=flori@polyphony.chat,uniqueIdentifier=client1",
    );
    let first = name.validate(Some(Target::Actor));
    let second = name.validate(Some(Target::Actor));
    assert!(first.is_ok() && second.is_ok());
    let bad = name_from_str(
        "CN=flori,DC=polyphony,DC=chat,UID=flori@polyphonyy.chat,uniqueIdentifier=client1",
    );
    let first = bad.validate(Some(Target::Actor));
    let second = bad.validate(Some(Target::Actor));
    match (first, second) {
        (
            Err(ConstraintError::Malformed(Some(r1))),
            Err(ConstraintError::Malformed(Some(r2))),
        ) => assert_eq!(r1, r2),
        other => panic!("expected the same Malformed twice, got {:?}", other),
    }
}

#[test]
fn unknown_attributes_are_ignored() {
    let name = name_from_str("CN=example,OU=unchecked,DC=polyphony,DC=chat");
    assert!(name.validate(Some(Target::HomeServer)).is_ok());
    assert!(name.validate(None).is_ok());
}

#[test]
fn empty_name_is_missing_domain_component() {
    let name = Name(Vec::new());
    match name.validate(None) {
        Err(ConstraintError::OutOfBounds { lower, upper, actual, .. }) => {
            assert_eq!((lower, upper, actual), (1, 255, 0));
        }
        other => panic!("expected OutOfBounds, got {:?}", other),
    }
}
