//! Key pairs and what is done with them: signing and verifying.

pub mod rsa_keypair;

use vstd::prelude::*;
use crate::text::{owned, push_str};
use rsa_keypair::{
    generation_failure, pem_framed, private_label, public_label, signing_failure,
    verification_failure, RSAKeyPair,
};

verus! {

/// The algorithm of a key pair.
#[derive(Clone, Copy, Debug, PartialEq, Eq, Structural)]
pub enum Algorithm {
    RSA,
    ECDSA,
    SECP256k1,
    NTRU,
}

/// The name of an algorithm, as messages show it.
pub open spec fn algorithm_name(algorithm: Algorithm) -> Seq<char> {
    match algorithm {
        Algorithm::RSA => "RSA"@,
        Algorithm::ECDSA => "ECDSA"@,
        Algorithm::SECP256k1 => "SECP256k1"@,
        Algorithm::NTRU => "NTRU"@,
    }
}

impl Algorithm {
    /// The name of the algorithm.
    pub fn name(&self) -> (name: &'static str)
        ensures
            name@ == algorithm_name(*self),
    {
        match self {
            Algorithm::RSA => "RSA",
            Algorithm::ECDSA => "ECDSA",
            Algorithm::SECP256k1 => "SECP256k1",
            Algorithm::NTRU => "NTRU",
        }
    }
}

/// A public and a private key, both as PEM text, and their algorithm.
#[derive(Debug)]
pub struct KeyPair {
    pub public_key: String,
    pub private_key: String,
    pub(crate) algorithm: Algorithm,
}

impl Clone for KeyPair {
    fn clone(&self) -> (copy: Self)
        ensures
            copy.spec_public_key() == self.spec_public_key(),
            copy.spec_private_key() == self.spec_private_key(),
            copy.spec_algorithm() == self.spec_algorithm(),
    {
        KeyPair {
            public_key: self.public_key.clone(),
            private_key: self.private_key.clone(),
            algorithm: self.algorithm,
        }
    }
}

impl KeyPair {
    /// The public key.
    pub closed spec fn spec_public_key(&self) -> Seq<char> {
        self.public_key@
    }

    /// The private key.
    pub closed spec fn spec_private_key(&self) -> Seq<char> {
        self.private_key@
    }

    /// The algorithm of the keys.
    pub closed spec fn spec_algorithm(&self) -> Algorithm {
        self.algorithm
    }

    /// The key pair with the given parts.
    pub fn from_parts(public_key: String, private_key: String, algorithm: Algorithm) -> (pair:
        KeyPair)
        ensures
            pair.spec_public_key() == public_key@,
            pair.spec_private_key() == private_key@,
            pair.spec_algorithm() == algorithm,
    {
        KeyPair { public_key, private_key, algorithm }
    }

    /// The public key, as PEM text.
    pub fn public_pem(&self) -> (pem: &str)
        ensures
            pem@ == self.spec_public_key(),
    {
        self.public_key.as_str()
    }

    /// The private key, as PEM text.
    pub fn private_pem(&self) -> (pem: &str)
        ensures
            pem@ == self.spec_private_key(),
    {
        self.private_key.as_str()
    }

    /// The algorithm of the keys.
    pub fn algorithm(&self) -> (algorithm: Algorithm)
        ensures
            algorithm == self.spec_algorithm(),
    {
        self.algorithm
    }

    /// A fresh key pair. RSA is the one algorithm that keys can be made
    /// for. The keys come from the system's source of randomness and are
    /// handed out as PKCS#1 PEM text, the public key framed as
    /// `RSA PUBLIC KEY`, the private key as `RSA PRIVATE KEY`. Where making
    /// or encoding them fails, the error says which step failed.
    pub fn generate(algorithm: Algorithm) -> (made: Result<KeyPair, String>)
        requires
            algorithm == Algorithm::RSA,
        ensures
            made matches Ok(pair) ==> {
                &&& pair.spec_algorithm() == algorithm
                &&& pem_framed(pair.spec_public_key(), public_label())
                &&& pem_framed(pair.spec_private_key(), private_label())
            },
            made matches Err(text) ==> generation_failure(text@),
    {
        RSAKeyPair::generate()
    }

    /// The message for an algorithm that cannot do what was asked.
    pub fn not_implemented(what: &str, algorithm: Algorithm) -> (message: String)
        ensures
            message@ == what@ + " not implemented for "@ + algorithm_name(algorithm),
    {
        let mut message = owned(what);
        push_str(&mut message, " not implemented for ");
        push_str(&mut message, algorithm.name());
        message
    }

    /// Signs `message` with the private key. Keys of an algorithm other
    /// than RSA cannot sign.
    pub fn sign(&self, message: &[u8]) -> (signed: Result<Vec<u8>, String>)
        ensures
            self.spec_algorithm() != Algorithm::RSA ==> (signed matches Err(text) && text@
                == "Signing"@ + " not implemented for "@ + algorithm_name(self.spec_algorithm())),
            self.spec_algorithm() == Algorithm::RSA ==> (signed matches Err(text)
                ==> signing_failure(text@)),
    {
        match self.algorithm {
            Algorithm::RSA => RSAKeyPair::sign(self, message),
            _ => Err(Self::not_implemented("Signing", self.algorithm)),
        }
    }

    /// Checks `signature` against `message` with the public key. The answer
    /// is `Ok(true)` for a signature that holds, and an error for any other.
    /// Keys of an algorithm other than RSA cannot verify.
    pub fn verify(&self, message: &[u8], signature: &[u8]) -> (verified: Result<bool, String>)
        ensures
            self.spec_algorithm() != Algorithm::RSA ==> (verified matches Err(text) && text@
                == "Verification"@ + " not implemented for "@ + algorithm_name(
                self.spec_algorithm(),
            )),
            self.spec_algorithm() == Algorithm::RSA ==> (verified matches Err(text)
                ==> verification_failure(text@)),
            verified matches Ok(holds) ==> holds,
    {
        match self.algorithm {
            Algorithm::RSA => RSAKeyPair::verify(self, message, signature),
            _ => Err(Self::not_implemented("Verification", self.algorithm)),
        }
    }
}

} // verus!
