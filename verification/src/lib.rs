//! Event-notification model of a ledger node: typed events describing
//! transaction acceptance and application, IBC packet effects and governance
//! proposal execution, together with their conversions to the consensus
//! engine's wire representation and the parsing of subscription payloads
//! back into attribute maps.

pub mod attributes;
pub mod event;
pub mod json;
pub mod render;
pub mod store;
pub mod tx;
pub mod wire;

pub use attributes::Attributes;
pub use attributes::Error;
pub use event::Event;
pub use event::EventLevel;
pub use event::EventType;
pub use json::JsonValue;
pub use store::AttributeStore;
pub use tx::Header;
pub use tx::Tx;
pub use tx::TxType;
pub use wire::EventAttribute;
pub use wire::IbcEvent;
pub use wire::ProposalEvent;
pub use wire::WireEvent;
