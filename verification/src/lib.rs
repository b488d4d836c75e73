//! Sans-I/O core of a peer-to-peer node: the peer registry, the stream and
//! datagram channel state machines, service-discovery wire formats and the
//! identity layer, with their behaviour stated in contracts.

pub mod assoc;
pub mod discovery;
pub mod identity;
pub mod logger;
pub mod record;
pub mod text;
pub mod transport;
