use polyproto::attributes::AttributeTypeAndValue;
use polyproto::cert::{FederationId, IdCsr, IdCertTBS, Signature, SignatureAlgorithm};
use polyproto::errors::ConstraintError;
use polyproto::fid::validate_rdn_uid;
use polyproto::session::{validate_rdn_unique_identifier, SessionId};

fn uid_attr(value: &str) -> AttributeTypeAndValue {
    AttributeTypeAndValue::new(vec![0, 9, 2342, 19200300, 100, 1, 1], value.as_bytes().to_vec())
}

fn session_attr(value: &str) -> AttributeTypeAndValue {
    AttributeTypeAndValue::new(vec![0, 9, 2342, 19200300, 100, 1, 44], value.as_bytes().to_vec())
}

#[test]
fn federation_id_syntax() {
    assert!(validate_rdn_uid(&uid_attr("flori@polyphony.chat")).is_ok());
    assert!(validate_rdn_uid(&uid_attr("flori@localhost")).is_ok());
    assert!(validate_rdn_uid(&uid_attr("a.b-c_d%e+f@dom-1.tld")).is_ok());
    assert!(validate_rdn_uid(&uid_attr("noatsign")).is_err());
    assert!(validate_rdn_uid(&uid_attr("@nodomainlocal")).is_err());
    assert!(validate_rdn_uid(&uid_attr("")).is_err());
    match validate_rdn_uid(&uid_attr("...@...")) {
        Err(ConstraintError::Malformed(Some(reason))) => {
            assert!(reason.contains("Federation ID"));
        }
        other => panic!("expected Malformed, got {:?}", other),
    }
}

#[test]
fn session_id_rules() {
    assert!(SessionId::new_validated(&b"client1".to_vec()).is_ok());
    assert!(SessionId::new_validated(&b"c".to_vec()).is_ok());
    assert!(SessionId::new_validated(&vec![b'x'; 32]).is_ok());
    assert!(SessionId::new_validated(&vec![b'x'; 33]).is_err());
    assert!(SessionId::new_validated(&Vec::new()).is_err());
    let sid = SessionId::new_validated(&b"client1".to_vec()).unwrap();
    assert_eq!(sid.as_bytes(), &b"client1".to_vec());
    assert!(validate_rdn_unique_identifier(&session_attr("client1")).is_ok());
    assert!(validate_rdn_unique_identifier(&session_attr("")).is_err());
}

fn sample_csr(expiry: Option<u64>) -> IdCsr {
    IdCsr {
        pub_key: "key".to_string(),
        federation_id: FederationId {
            actor_name: "flori".to_string(),
            domain: "polyphony".to_string(),
            tld: "chat".to_string(),
        },
        session_id: "client1".to_string(),
        expiry,
    }
}

#[test]
fn tbs_bytes_are_the_concatenation() {
    let tbs = IdCertTBS {
        pub_key: "key".to_string(),
        federation_id: FederationId {
            actor_name: "flori".to_string(),
            domain: "polyphony".to_string(),
            tld: "chat".to_string(),
        },
        session_id: "client1".to_string(),
        expiry: 7,
        serial: "9".to_string(),
    };
    let mut expected: Vec<u8> = Vec::new();
    expected.extend_from_slice(b"key");
    expected.extend_from_slice(b"flori");
    expected.extend_from_slice(b"polyphony");
    expected.extend_from_slice(b"chat");
    expected.extend_from_slice(b"client1");
    expected.extend_from_slice(&[0, 0, 0, 0, 0, 0, 0, 7]);
    expected.extend_from_slice(b"9");
    assert_eq!(tbs.to_bytes(), expected);
}

#[test]
fn expiry_is_big_endian() {
    let tbs = IdCertTBS {
        pub_key: String::new(),
        federation_id: FederationId {
            actor_name: String::new(),
            domain: String::new(),
            tld: String::new(),
        },
        session_id: String::new(),
        expiry: 0x0102030405060708,
        serial: String::new(),
    };
    assert_eq!(tbs.to_bytes(), vec![1, 2, 3, 4, 5, 6, 7, 8]);
}

#[test]
fn federation_id_word_boundaries() {
    // The pattern matches anywhere in the value, starting on a word boundary.
    assert!(validate_rdn_uid(&uid_attr("see flori@polyphony.chat")).is_ok());
    // An upper-case letter glued to the local part leaves no word boundary
    // anywhere in the run, so nothing matches.
    assert!(validate_rdn_uid(&uid_attr("Xflori@polyphony.chat")).is_err());
    // Dots alone carry no word boundary, so no local part can start.
    assert!(validate_rdn_uid(&uid_attr("..@chat")).is_err());
}

#[test]
fn csr_to_tbs_defaults() {
    let tbs = sample_csr(None).to_cert_tbs();
    assert_eq!(tbs.expiry, 0);
    assert_eq!(tbs.serial, "");
    assert_eq!(tbs.pub_key, "key");
    assert_eq!(tbs.federation_id.actor_name, "flori");
    let tbs = sample_csr(Some(77)).to_cert_tbs();
    assert_eq!(tbs.expiry, 77);
}

#[test]
fn tbs_into_cert_keeps_fields() {
    let tbs = sample_csr(Some(42)).to_cert_tbs();
    let signature = Signature::new("sig-bytes".to_string(), SignatureAlgorithm::ED25519);
    let cert = tbs.into_cert(signature);
    assert_eq!(cert.pub_key, "key");
    assert_eq!(cert.federation_id.domain, "polyphony");
    assert_eq!(cert.session_id, "client1");
    assert_eq!(cert.expiry, 42);
    assert_eq!(cert.serial, "");
    assert_eq!(cert.signature.as_str(), "sig-bytes");
    assert_eq!(cert.signature.as_bytes(), b"sig-bytes");
    assert_eq!(cert.signature.algorithm, SignatureAlgorithm::ED25519);
}
