//! Resolution of a peer's network addresses from its identity: the wire
//! codec, the request/response exchange, the lookup adapter, the query
//! state machine and the responder, each with a verified contract.

pub mod bytes;
pub mod codec;
pub mod dht;
pub mod exchange;
pub mod message;
pub mod orchestrator;
pub mod outcome;
pub mod peer;
pub mod query;
pub mod responder;
pub mod varint;

pub use codec::LpCbor;
pub use message::{Request, Response};
pub use peer::{extract_peer_id, NetworkAddress, PeerIdentity};
pub use query::perform_query;
