//! The contact exchange: a peer identifies itself, answers a nonce with a
//! signature, and checks the answer of another.
//!
//! The messages are plain values here. Encoding them, and reading and
//! writing the stream, is the driver's part.

use vstd::prelude::*;
use base64::Engine;
use rsa::RsaPublicKey;
use crate::identity::cep_error::CEPError;
use crate::identity::keypair::rsa_keypair::{
    pkcs1_error_text, public_key_from_pem, rsa_error_text,
};
use crate::identity::keypair::KeyPair;
use crate::identity::peer_id::hash::{base64_encode, base64_standard, BASE64_MAX_INPUT};
use crate::text::owned;

verus! {

#[verifier::external_type_specification]
#[verifier::external_body]
pub struct ExDecodeError(base64::DecodeError);

/// `Engine::decode` of the standard base64 engine: the bytes that the text
/// encodes, or the error of the decoder.
#[verifier::external_body]
fn base64_decode(text: &str) -> Result<Vec<u8>, base64::DecodeError> {
    base64::engine::general_purpose::STANDARD.decode(text)
}

/// `Display` of `base64::DecodeError`: the text of an error of the base64
/// decoder.
#[verifier::external_body]
fn decode_error_text(error: &base64::DecodeError) -> String {
    format!("{}", error)
}

/// `RsaPublicKey::verify` with the PKCS#1 v1.5 scheme for SHA-256: `Ok`
/// where `signature` holds for the digest `hashed`, else the error of the
/// verifier.
#[verifier::external_body]
fn verify_digest(key: &RsaPublicKey, hashed: &[u8], signature: &[u8]) -> Result<(), rsa::Error> {
    key.verify(rsa::Pkcs1v15Sign::new::<sha2::Sha256>(), hashed, signature)
}

/// The version of the exchange that is spoken.
pub open spec fn protocol_version() -> Seq<char> {
    "1.0"@
}

/// The nonce that `perform` uses.
pub open spec fn fixed_nonce() -> Seq<char> {
    "random_nonce"@
}

/// A peer says who it is.
#[derive(Debug)]
pub struct CepIdentification {
    pub peer_id: String,
    pub public_key: String,
    pub nonce: String,
    pub timestamp: String,
    pub version: String,
}

/// A peer answers a nonce.
#[derive(Debug)]
pub struct CepResponse {
    pub peer_id: String,
    pub public_key: String,
    pub signed_nonce: String,
}

/// A message of the exchange.
#[derive(Debug)]
pub enum CepMessage {
    Identification(CepIdentification),
    Response(CepResponse),
    /// A message without content.
    Empty,
}

/// How checking a response went.
#[derive(Debug)]
pub enum Checked {
    /// The message is no response.
    NotAResponse,
    /// The signed nonce is not base64.
    BadNonce(String),
    /// The public key could not be read.
    BadKey(String),
    /// The signature does not hold.
    Rejected(String),
    /// The signature holds.
    Accepted,
}

/// The contact exchange.
pub struct CEP;

impl CEP {
    /// The message with which a peer identifies itself: its id, the public
    /// key of `keypair`, the nonce, the time as text, and the version.
    pub fn identify(keypair: &KeyPair, peer_id: &str, nonce: &str, timestamp: &str) -> (message:
        CepMessage)
        ensures
            message matches CepMessage::Identification(id) && id.peer_id@ == peer_id@
                && id.public_key@ == keypair.spec_public_key() && id.nonce@ == nonce@
                && id.timestamp@ == timestamp@ && id.version@ == protocol_version(),
    {
        CepMessage::Identification(
            CepIdentification {
                peer_id: owned(peer_id),
                public_key: owned(keypair.public_pem()),
                nonce: owned(nonce),
                timestamp: owned(timestamp),
                version: owned("1.0"),
            },
        )
    }

    /// The response for a signature of the nonce, or the error for a
    /// signature that could not be made: the public key of `keypair` as id
    /// and as key, and the signature in base64. A signature that is too
    /// long to encode is an error too.
    pub fn response_for(keypair: &KeyPair, signature: Result<Vec<u8>, String>) -> (answer: Result<
        CepMessage,
        CEPError,
    >)
        ensures
            match signature {
                Ok(bytes) => if bytes@.len() <= BASE64_MAX_INPUT {
                    answer matches Ok(CepMessage::Response(r)) && r.peer_id@
                        == keypair.spec_public_key() && r.public_key@ == keypair.spec_public_key()
                        && r.signed_nonce@ == base64_standard(bytes@)
                } else {
                    answer matches Err(CEPError::Verification(_))
                },
                Err(text) => answer matches Err(CEPError::Verification(detail)) && detail@
                    == text@,
            },
    {
        match signature {
            Ok(bytes) => {
                if bytes.len() > BASE64_MAX_INPUT {
                    return Err(CEPError::Verification(owned("signature too long")));
                }
                Ok(
                    CepMessage::Response(
                        CepResponse {
                            peer_id: owned(keypair.public_pem()),
                            public_key: owned(keypair.public_pem()),
                            signed_nonce: base64_encode(bytes.as_slice()),
                        },
                    ),
                )
            },
            Err(text) => Err(CEPError::Verification(text)),
        }
    }

    /// The message with which a peer answers the nonce it received: see
    /// `response_for`, for the signature of the bytes of the nonce.
    pub fn respond(keypair: &KeyPair, received_nonce: &str) -> (answer: Result<
        CepMessage,
        CEPError,
    >)
        ensures
            answer matches Ok(message) ==> message matches CepMessage::Response(r) && r.peer_id@
                == keypair.spec_public_key() && r.public_key@ == keypair.spec_public_key()
                && exists|signature: Seq<u8>|
                r.signed_nonce@ == #[trigger] base64_standard(signature),
            answer matches Err(e) ==> e is Verification,
    {
        let signature = keypair.sign(received_nonce.as_bytes());
        Self::response_for(keypair, signature)
    }

    /// The result of `verify_response` for each way in which checking can
    /// go.
    pub fn checked(outcome: Checked) -> (verdict: Result<bool, CEPError>)
        ensures
            match outcome {
                Checked::NotAResponse => verdict matches Err(CEPError::InvalidMessageType),
                Checked::BadNonce(text) => verdict matches Err(CEPError::Decode(detail))
                    && detail@ == text@,
                Checked::BadKey(text) => verdict matches Err(CEPError::Decode(detail)) && detail@
                    == text@,
                Checked::Rejected(text) => verdict matches Err(CEPError::Rsa(detail)) && detail@
                    == text@,
                Checked::Accepted => verdict matches Ok(holds) && holds,
            },
    {
        match outcome {
            Checked::NotAResponse => Err(CEPError::InvalidMessageType),
            Checked::BadNonce(text) => Err(CEPError::Decode(text)),
            Checked::BadKey(text) => Err(CEPError::Decode(text)),
            Checked::Rejected(text) => Err(CEPError::Rsa(text)),
            Checked::Accepted => Ok(true),
        }
    }

    /// Checks the response of a peer: its signed nonce, decoded from
    /// base64, must be a signature, under the public key it names, of the
    /// bytes of `expected_nonce` taken as a SHA-256 digest. Any message but a
    /// response is refused as of the wrong kind.
    pub fn verify_response(message: &CepMessage, expected_nonce: &str) -> (verdict: Result<
        bool,
        CEPError,
    >)
        ensures
            !(message is Response) ==> verdict matches Err(CEPError::InvalidMessageType),
            message is Response ==> (verdict matches Err(e) ==> e is Decode || e is Rsa),
            verdict matches Ok(holds) ==> holds && message is Response,
    {
        let response = match message {
            CepMessage::Response(response) => response,
            _ => {
                return Self::checked(Checked::NotAResponse);
            },
        };
        let signature = match base64_decode(response.signed_nonce.as_str()) {
            Ok(bytes) => bytes,
            Err(e) => {
                return Self::checked(Checked::BadNonce(decode_error_text(&e)));
            },
        };
        let key = match public_key_from_pem(response.public_key.as_str()) {
            Ok(key) => key,
            Err(e) => {
                return Self::checked(Checked::BadKey(pkcs1_error_text(&e)));
            },
        };
        match verify_digest(&key, expected_nonce.as_bytes(), signature.as_slice()) {
            Ok(()) => Self::checked(Checked::Accepted),
            Err(e) => Self::checked(Checked::Rejected(rsa_error_text(&e))),
        }
    }

    /// The two messages that a peer sends in an exchange, in order: it
    /// identifies itself with the fixed nonce, then answers that nonce.
    pub fn perform(keypair: &KeyPair, peer_id: &str, timestamp: &str) -> (messages: Result<
        (CepMessage, CepMessage),
        CEPError,
    >)
        ensures
            messages matches Ok((first, second)) ==> {
                &&& first matches CepMessage::Identification(id)
                &&& id.peer_id@ == peer_id@
                &&& id.public_key@ == keypair.spec_public_key()
                &&& id.nonce@ == fixed_nonce()
                &&& id.timestamp@ == timestamp@
                &&& id.version@ == protocol_version()
                &&& second matches CepMessage::Response(r)
                &&& r.peer_id@ == keypair.spec_public_key()
                &&& r.public_key@ == keypair.spec_public_key()
            },
            messages matches Err(e) ==> e is Verification,
    {
        let nonce = "random_nonce";
        let first = Self::identify(keypair, peer_id, nonce, timestamp);
        match Self::respond(keypair, nonce) {
            Ok(second) => Ok((first, second)),
            Err(e) => Err(e),
        }
    }
}

} // verus!
