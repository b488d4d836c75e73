//! Peer ids: from a hash of the public key, or at random.

pub mod hash;
pub mod uuid;

use vstd::prelude::*;
use vstd::utf8::encode_utf8;
use hash::{base64_standard, sha256, sha512, HashPeerID};
use uuid::UUIDPeerID;

verus! {

/// How a peer id is made.
#[derive(Clone, Copy, Debug, PartialEq, Eq, Structural)]
pub enum PeerIDGeneration {
    UUID,
    SHA256,
    SHA512,
}

/// The way that is taken where `algorithm` may be left out: SHA-256 unless
/// another is named.
pub open spec fn chosen(algorithm: Option<PeerIDGeneration>) -> PeerIDGeneration {
    match algorithm {
        Some(algorithm) => algorithm,
        None => PeerIDGeneration::SHA256,
    }
}

/// Peer ids.
pub struct PeerID;

impl PeerID {
    /// A peer id for `input`, made as `algorithm` says, or from its SHA-256
    /// hash where nothing is said. A hashed id is the hash of the UTF-8
    /// bytes of `input` in standard base64; a random id does not depend on
    /// `input`.
    pub fn generate(algorithm: Option<PeerIDGeneration>, input: &str) -> (id: String)
        ensures
            match chosen(algorithm) {
                PeerIDGeneration::UUID => id@.len() == 36,
                PeerIDGeneration::SHA256 => id@ == base64_standard(sha256(encode_utf8(input@))),
                PeerIDGeneration::SHA512 => id@ == base64_standard(sha512(encode_utf8(input@))),
            },
    {
        let algorithm = match algorithm {
            Some(algorithm) => algorithm,
            None => PeerIDGeneration::SHA256,
        };
        proof {
            reveal_strlit("sha256");
            reveal_strlit("sha512");
            assert("sha512"@[3] != "sha256"@[3]);
        }
        match algorithm {
            PeerIDGeneration::UUID => UUIDPeerID::generate(input),
            PeerIDGeneration::SHA256 => HashPeerID::generate(input, "sha256"),
            PeerIDGeneration::SHA512 => HashPeerID::generate(input, "sha512"),
        }
    }
}

} // verus!
