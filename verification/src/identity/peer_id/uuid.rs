//! Peer ids at random.

use vstd::prelude::*;

verus! {

/// `Uuid::new_v4` and its `to_string`: a random UUID in its hyphenated
/// form, which is 36 characters long.
#[verifier::external_body]
fn random_uuid() -> (text: String)
    ensures
        text@.len() == 36,
{
    uuid::Uuid::new_v4().to_string()
}

/// Peer ids at random.
pub struct UUIDPeerID;

impl UUIDPeerID {
    /// A random id, a UUID in its hyphenated form. The input is not looked
    /// at.
    pub fn generate(_input: &str) -> (id: String)
        ensures
            id@.len() == 36,
    {
        random_uuid()
    }
}

} // verus!
