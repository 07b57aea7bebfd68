//! A defensive SSDP discovery responder core.
//!
//! The crate verifies the two pieces that face adversarial input: a
//! per-source-address reputation tracker that throttles and permanently
//! silences abusive senders, and a tolerant datagram classifier that turns
//! an arbitrary UDP payload into a structured audit record without ever
//! failing. A small responder decision ties the two together. The SOAP
//! endpoint description types of the companion RPC surface are carried as
//! plain data.

pub mod endpoint;
pub mod ip;
pub mod responder;
pub mod scan;
pub mod soap;
pub mod ssdp;
