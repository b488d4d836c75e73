//! The identity of a node: a key pair and the peer id derived from it.

pub mod cep;
pub mod cep_error;
pub mod keypair;
pub mod peer_id;

use vstd::prelude::*;
use vstd::utf8::encode_utf8;
use cep::CepMessage;
use keypair::rsa_keypair::generation_failure;
use peer_id::hash::{base64_standard, sha256, sha512};
use peer_id::{chosen, PeerID};

pub use cep::CEP;
pub use cep_error::CEPError;
pub use keypair::{Algorithm, KeyPair};
pub use peer_id::PeerIDGeneration;

verus! {

/// A node's key pair and the peer id that was made from its public key.
#[derive(Debug)]
pub struct Identity {
    peer_id: String,
    key_pair: KeyPair,
}

impl Identity {
    /// The peer id.
    pub closed spec fn spec_peer_id(&self) -> Seq<char> {
        self.peer_id@
    }

    /// The key pair.
    pub closed spec fn spec_key_pair(&self) -> KeyPair {
        self.key_pair
    }

    /// The identity of the holder of `key_pair`: the key pair, and a peer id
    /// made from its public key as `peer_id_generation` says, from its
    /// SHA-256 hash where nothing is said.
    pub fn with_keys(key_pair: KeyPair, peer_id_generation: Option<PeerIDGeneration>) -> (identity:
        Self)
        ensures
            identity.spec_key_pair() == key_pair,
            match chosen(peer_id_generation) {
                PeerIDGeneration::UUID => identity.spec_peer_id().len() == 36,
                PeerIDGeneration::SHA256 => identity.spec_peer_id() == base64_standard(
                    sha256(encode_utf8(key_pair.spec_public_key())),
                ),
                PeerIDGeneration::SHA512 => identity.spec_peer_id() == base64_standard(
                    sha512(encode_utf8(key_pair.spec_public_key())),
                ),
            },
    {
        let how = match peer_id_generation {
            Some(how) => how,
            None => PeerIDGeneration::SHA256,
        };
        let peer_id = PeerID::generate(Some(how), key_pair.public_pem());
        Identity { peer_id, key_pair }
    }

    /// A fresh identity: a new key pair, and a peer id made from its public
    /// key as `with_keys` makes it. RSA, which is also taken where no
    /// algorithm is named, is the one algorithm that keys can be made for.
    /// Where the keys cannot be made, the error says which step failed.
    pub fn new(algo: Option<Algorithm>, peer_id_generation: Option<PeerIDGeneration>) -> (made:
        Result<Self, String>)
        requires
            algo is None || algo == Some(Algorithm::RSA),
        ensures
            made matches Ok(identity) ==> {
                let key = identity.spec_key_pair().spec_public_key();
                &&& identity.spec_key_pair().spec_algorithm() == Algorithm::RSA
                &&& match chosen(peer_id_generation) {
                    PeerIDGeneration::UUID => identity.spec_peer_id().len() == 36,
                    PeerIDGeneration::SHA256 => identity.spec_peer_id() == base64_standard(
                        sha256(encode_utf8(key)),
                    ),
                    PeerIDGeneration::SHA512 => identity.spec_peer_id() == base64_standard(
                        sha512(encode_utf8(key)),
                    ),
                }
            },
            made matches Err(text) ==> generation_failure(text@),
    {
        let algorithm = match algo {
            Some(algorithm) => algorithm,
            None => Algorithm::RSA,
        };
        match KeyPair::generate(algorithm) {
            Ok(key_pair) => Ok(Self::with_keys(key_pair, peer_id_generation)),
            Err(e) => Err(e),
        }
    }

    /// The peer id.
    pub fn get_peer_id(&self) -> (id: &str)
        ensures
            id@ == self.spec_peer_id(),
    {
        self.peer_id.as_str()
    }

    /// The key pair.
    pub fn get_key_pair(&self) -> (pair: &KeyPair)
        ensures
            *pair == self.spec_key_pair(),
    {
        &self.key_pair
    }

    /// The two messages that this node sends in a contact exchange, dated
    /// `timestamp`: see `CEP::perform`.
    pub fn perform_cep(&self, timestamp: &str) -> (messages: Result<
        (CepMessage, CepMessage),
        CEPError,
    >)
        ensures
            messages matches Ok((first, second)) ==> {
                &&& first matches CepMessage::Identification(id)
                &&& id.peer_id@ == self.spec_peer_id()
                &&& id.public_key@ == self.spec_key_pair().spec_public_key()
                &&& second is Response
            },
            messages matches Err(e) ==> e is Verification,
    {
        CEP::perform(&self.key_pair, self.peer_id.as_str(), timestamp)
    }
}

} // verus!
