use nautilus::identity::cep::{CepMessage, CepResponse, Checked};
use nautilus::identity::{Algorithm, CEPError, KeyPair, CEP};
use rsa::pkcs1::{DecodeRsaPrivateKey, EncodeRsaPrivateKey, EncodeRsaPublicKey};

/// A key pair of 512 bits, which is made in a moment.
fn small_keys() -> KeyPair {
    let private = rsa::RsaPrivateKey::new(&mut rand_core::OsRng, 512).unwrap();
    let public = private.to_public_key();
    KeyPair::from_parts(
        public.to_pkcs1_pem(rsa::pkcs8::LineEnding::LF).unwrap(),
        private.to_pkcs1_pem(rsa::pkcs8::LineEnding::LF).unwrap().to_string(),
        Algorithm::RSA,
    )
}

fn some_keys() -> KeyPair {
    KeyPair::from_parts("PUBLIC".to_string(), "PRIVATE".to_string(), Algorithm::RSA)
}

#[test]
fn test_identify_phase() {
    let keypair = some_keys();
    let peer_id = "peer1";
    let nonce = "test_nonce";

    let message = CEP::identify(&keypair, peer_id, nonce, "2024-01-01T00:00:00+00:00");
    match message {
        CepMessage::Identification(identification) => {
            assert_eq!(identification.peer_id, peer_id);
            assert_eq!(identification.nonce, nonce);
            assert_eq!(identification.public_key, "PUBLIC");
            assert_eq!(identification.timestamp, "2024-01-01T00:00:00+00:00");
            assert_eq!(identification.version, "1.0");
        }
        _ => panic!("Unexpected CEP message type"),
    }
}

#[test]
fn response_names_the_public_key_and_holds_the_signature() {
    let keypair = small_keys();
    let nonce = "test_nonce";

    match CEP::respond(&keypair, nonce).unwrap() {
        CepMessage::Response(response) => {
            assert_eq!(response.peer_id, keypair.public_key);
            assert_eq!(response.public_key, keypair.public_key);
            assert_eq!(response.signed_nonce.len(), 88);
            assert!(response.signed_nonce.ends_with("=="));
        }
        _ => panic!("Unexpected CEP message type"),
    }
}

#[test]
fn nonce_that_is_no_digest_is_rejected() {
    let keypair = small_keys();
    let nonce = "test_nonce";

    let response = CEP::respond(&keypair, nonce).unwrap();
    let verdict = CEP::verify_response(&response, nonce);
    match verdict {
        Err(CEPError::Rsa(_)) => {}
        other => panic!("{:?}", other),
    }
}

#[test]
fn response_for_a_signature_encodes_it() {
    let keypair = some_keys();
    match CEP::response_for(&keypair, Ok(b"hello".to_vec())).unwrap() {
        CepMessage::Response(response) => {
            assert_eq!(response.signed_nonce, "aGVsbG8=");
            assert_eq!(response.peer_id, "PUBLIC");
            assert_eq!(response.public_key, "PUBLIC");
        }
        other => panic!("{:?}", other),
    }
    match CEP::response_for(&keypair, Err("no".to_string())) {
        Err(CEPError::Verification(text)) => assert_eq!(text, "no"),
        other => panic!("{:?}", other),
    }
}

#[test]
fn respond_with_unreadable_keys_fails() {
    match CEP::respond(&some_keys(), "nonce") {
        Err(CEPError::Verification(text)) => {
            assert!(text.starts_with("Failed to parse private key: "))
        }
        other => panic!("{:?}", other),
    }
}

#[test]
fn only_a_response_is_verified() {
    let id = CEP::identify(&some_keys(), "p", "n", "t");
    match CEP::verify_response(&id, "n") {
        Err(CEPError::InvalidMessageType) => {}
        other => panic!("{:?}", other),
    }
    match CEP::verify_response(&CepMessage::Empty, "n") {
        Err(CEPError::InvalidMessageType) => {}
        other => panic!("{:?}", other),
    }
}

#[test]
fn response_with_bad_parts_is_refused() {
    let bad_nonce = CepMessage::Response(CepResponse {
        peer_id: "p".to_string(),
        public_key: "k".to_string(),
        signed_nonce: "not base64!".to_string(),
    });
    match CEP::verify_response(&bad_nonce, "n") {
        Err(CEPError::Decode(_)) => {}
        other => panic!("{:?}", other),
    }
    let bad_key = CepMessage::Response(CepResponse {
        peer_id: "p".to_string(),
        public_key: "k".to_string(),
        signed_nonce: "aGVsbG8=".to_string(),
    });
    match CEP::verify_response(&bad_key, "n") {
        Err(CEPError::Decode(_)) => {}
        other => panic!("{:?}", other),
    }
}

#[test]
fn checked_outcomes() {
    assert!(matches!(CEP::checked(Checked::Accepted), Ok(true)));
    assert!(matches!(CEP::checked(Checked::NotAResponse), Err(CEPError::InvalidMessageType)));
    match CEP::checked(Checked::BadNonce("a".to_string())) {
        Err(CEPError::Decode(text)) => assert_eq!(text, "a"),
        other => panic!("{:?}", other),
    }
    match CEP::checked(Checked::BadKey("b".to_string())) {
        Err(CEPError::Decode(text)) => assert_eq!(text, "b"),
        other => panic!("{:?}", other),
    }
    match CEP::checked(Checked::Rejected("c".to_string())) {
        Err(CEPError::Rsa(text)) => assert_eq!(text, "c"),
        other => panic!("{:?}", other),
    }
}

#[test]
fn perform_identifies_then_answers_the_fixed_nonce() {
    let keypair = small_keys();
    let (first, second) = CEP::perform(&keypair, "peer1", "2024-01-01T00:00:00+00:00").unwrap();
    match first {
        CepMessage::Identification(id) => {
            assert_eq!(id.peer_id, "peer1");
            assert_eq!(id.nonce, "random_nonce");
            assert_eq!(id.version, "1.0");
            assert_eq!(id.timestamp, "2024-01-01T00:00:00+00:00");
            assert_eq!(id.public_key, keypair.public_key);
        }
        other => panic!("{:?}", other),
    }
    match second {
        CepMessage::Response(r) => {
            assert_eq!(r.public_key, keypair.public_key);
            assert_eq!(r.peer_id, keypair.public_key);
            assert_eq!(r.signed_nonce.len(), 88);
        }
        other => panic!("{:?}", other),
    }
}

#[test]
fn signature_over_a_digest_is_verified() {
    let keypair = small_keys();
    let digest = "0123456789abcdef0123456789abcdef";
    let private = rsa::RsaPrivateKey::from_pkcs1_pem(&keypair.private_key).unwrap();
    let signature =
        private.sign(rsa::Pkcs1v15Sign::new::<sha2::Sha256>(), digest.as_bytes()).unwrap();
    let response = CEP::response_for(&keypair, Ok(signature)).unwrap();
    assert!(matches!(CEP::verify_response(&response, digest), Ok(true)));
    assert!(matches!(
        CEP::verify_response(&response, "0123456789abcdef0123456789abcdeX"),
        Err(CEPError::Rsa(_))
    ));
}

#[test]
fn errors_have_their_text() {
    assert_eq!(CEPError::IO("x".to_string()).to_string(), "I/O Error: x");
    assert_eq!(CEPError::Protobuf("x".to_string()).to_string(), "Protobuf Error: x");
    assert_eq!(CEPError::Verification("x".to_string()).to_string(), "Verification Error: x");
    assert_eq!(CEPError::Decode("x".to_string()).to_string(), "Decode Error: x");
    assert_eq!(CEPError::Rsa("x".to_string()).to_string(), "RSA Error: x");
    assert_eq!(CEPError::InvalidMessageType.to_string(), "Invalid Message Type");
    assert_eq!(CEPError::VerificationFailed.to_string(), "Verification Failed");
    match CEPError::from("signing".to_string()) {
        CEPError::Verification(text) => assert_eq!(text, "signing"),
        other => panic!("{:?}", other),
    }
}
