//! Service discovery: the multicast-DNS wire format and responder, and the
//! SSDP messages.

pub mod mdns;
pub mod ssdp;

pub use mdns::{MDNSResponder, MDNSService};
pub use ssdp::{SSDPResponder, SSDPService};
