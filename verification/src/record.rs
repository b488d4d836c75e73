//! Known peers: addresses, records and the registry that holds them.

pub mod peer_addr;
pub mod peer_management;
pub mod peer_record;

pub use peer_addr::PeerAddr;
pub use peer_management::{CacheError, CacheRead, PeerManagement};
pub use peer_record::{PeerRecord, StoredPeer};
