//! Peer ids from a hash of the input.

use vstd::prelude::*;
use vstd::utf8::encode_utf8;
use base64::Engine;
use sha2::Digest;
use crate::text::owned;

verus! {

/// The SHA-256 hash of `data`.
pub uninterp spec fn sha256(data: Seq<u8>) -> Seq<u8>;

/// The SHA-512 hash of `data`.
pub uninterp spec fn sha512(data: Seq<u8>) -> Seq<u8>;

/// `bytes` in standard base64, with padding.
pub uninterp spec fn base64_standard(bytes: Seq<u8>) -> Seq<char>;

/// The longest input that is encoded in base64 here, in bytes.
pub const BASE64_MAX_INPUT: usize = 0x3000_0000;

/// `Sha256::digest`: the SHA-256 hash of the bytes, 32 bytes long.
#[verifier::external_body]
pub(crate) fn sha256_digest(data: &[u8]) -> (digest: Vec<u8>)
    ensures
        digest@ == sha256(data@),
        digest@.len() == 32,
{
    sha2::Sha256::digest(data).to_vec()
}

/// `Sha512::digest`: the SHA-512 hash of the bytes, 64 bytes long.
#[verifier::external_body]
pub(crate) fn sha512_digest(data: &[u8]) -> (digest: Vec<u8>)
    ensures
        digest@ == sha512(data@),
        digest@.len() == 64,
{
    sha2::Sha512::digest(data).to_vec()
}

/// `Engine::encode` of the standard base64 engine: the bytes in standard
/// base64, with padding.
#[verifier::external_body]
pub(crate) fn base64_encode(bytes: &[u8]) -> (text: String)
    requires
        bytes@.len() <= BASE64_MAX_INPUT,
    ensures
        text@ == base64_standard(bytes@),
{
    base64::engine::general_purpose::STANDARD.encode(bytes)
}

/// Whether `hash_type` names a hash that ids are made from.
pub open spec fn known_hash(hash_type: Seq<char>) -> bool {
    hash_type == "sha256"@ || hash_type == "sha512"@
}

/// Peer ids from a hash of the input.
pub struct HashPeerID;

impl HashPeerID {
    /// The id for `input`: the hash of its UTF-8 bytes, SHA-256 or SHA-512
    /// as `hash_type` says, in standard base64.
    pub fn generate(input: &str, hash_type: &str) -> (id: String)
        requires
            known_hash(hash_type@),
        ensures
            id@ == (if hash_type@ == "sha256"@ {
                base64_standard(sha256(encode_utf8(input@)))
            } else {
                base64_standard(sha512(encode_utf8(input@)))
            }),
    {
        let wanted = owned(hash_type);
        if wanted == owned("sha256") {
            let digest = sha256_digest(input.as_bytes());
            base64_encode(digest.as_slice())
        } else {
            let digest = sha512_digest(input.as_bytes());
            base64_encode(digest.as_slice())
        }
    }
}

} // verus!
