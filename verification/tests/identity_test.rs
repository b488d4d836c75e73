use nautilus::identity::peer_id::hash::HashPeerID;
use nautilus::identity::peer_id::uuid::UUIDPeerID;
use nautilus::identity::peer_id::PeerID;
use nautilus::identity::cep::CepMessage;
use nautilus::identity::{Algorithm, Identity, KeyPair, PeerIDGeneration};
use rsa::pkcs1::{EncodeRsaPrivateKey, EncodeRsaPublicKey};

#[test]
fn hashed_ids_are_base64_of_the_hash() {
    assert_eq!(
        HashPeerID::generate("abc", "sha256"),
        "ungWv48Bz+pBQUDeXa4iI7ADYaOWF3qctBD/YfIAFa0="
    );
    assert_eq!(
        HashPeerID::generate("abc", "sha512"),
        "3a81oZNherrMQXNJriBBMRLm+k6JqX6iCp7u5ktV05ohkpkqJ0/BqDa6PCOj/uu9RU1EI2Q86A4qmslPpUyknw=="
    );
    assert_eq!(
        HashPeerID::generate("", "sha256"),
        "47DEQpj8HBSa+/TImW+5JCeuQeRkm5NMpJWZG3hSuFU="
    );
}

#[test]
fn peer_id_goes_by_the_named_way() {
    assert_eq!(
        PeerID::generate(None, "abc"),
        "ungWv48Bz+pBQUDeXa4iI7ADYaOWF3qctBD/YfIAFa0="
    );
    assert_eq!(
        PeerID::generate(Some(PeerIDGeneration::SHA256), "abc"),
        "ungWv48Bz+pBQUDeXa4iI7ADYaOWF3qctBD/YfIAFa0="
    );
    assert_eq!(
        PeerID::generate(Some(PeerIDGeneration::SHA512), "abc"),
        "3a81oZNherrMQXNJriBBMRLm+k6JqX6iCp7u5ktV05ohkpkqJ0/BqDa6PCOj/uu9RU1EI2Q86A4qmslPpUyknw=="
    );
    let random = PeerID::generate(Some(PeerIDGeneration::UUID), "abc");
    assert_eq!(random.len(), 36);
    assert_ne!(random, "abc");
}

#[test]
fn random_ids_are_hyphenated_uuids() {
    let a = UUIDPeerID::generate("input");
    let b = UUIDPeerID::generate("input");
    assert_eq!(a.len(), 36);
    assert_ne!(a, b);
    let dashes: Vec<usize> = a.char_indices().filter(|(_, c)| *c == '-').map(|(i, _)| i).collect();
    assert_eq!(dashes, vec![8, 13, 18, 23]);
    assert_eq!(a.as_bytes()[14], b'4');
}

/// A key pair of 512 bits, which is made in a moment.
fn small_keys() -> KeyPair {
    let private = rsa::RsaPrivateKey::new(&mut rand_core::OsRng, 512).unwrap();
    let public = private.to_public_key();
    KeyPair::from_parts(
        public.to_pkcs1_pem(rsa::pkcs8::LineEnding::LF).unwrap(),
        private.to_pkcs1_pem(rsa::pkcs8::LineEnding::LF).unwrap().to_string(),
        Algorithm::RSA,
    )
}

#[test]
fn identity_has_an_id_made_from_the_public_key() {
    let keys = small_keys();
    let public_key = keys.public_key.clone();
    let identity = Identity::with_keys(keys.clone(), None);
    assert_eq!(identity.get_key_pair().algorithm(), Algorithm::RSA);
    assert_eq!(identity.get_key_pair().public_key, public_key);
    assert_eq!(identity.get_peer_id(), HashPeerID::generate(&public_key, "sha256"));

    let identity = Identity::with_keys(keys.clone(), Some(PeerIDGeneration::SHA512));
    assert_eq!(identity.get_peer_id(), HashPeerID::generate(&public_key, "sha512"));
    let identity = Identity::with_keys(keys, Some(PeerIDGeneration::UUID));
    assert_eq!(identity.get_peer_id().len(), 36);
}

#[test]
fn identity_performs_the_exchange_under_its_id() {
    let identity = Identity::with_keys(small_keys(), None);
    let (first, second) = identity.perform_cep("2024-01-01T00:00:00+00:00").unwrap();
    match first {
        CepMessage::Identification(id) => {
            assert_eq!(id.peer_id, identity.get_peer_id());
            assert_eq!(id.nonce, "random_nonce");
            assert_eq!(id.public_key, identity.get_key_pair().public_key);
        }
        other => panic!("{:?}", other),
    }
    assert!(matches!(second, CepMessage::Response(_)));
}
