//! The replication and group-state engine of a peer-to-peer group chat:
//! signed append-only logs, ingest with a dependency buffer, and the
//! decisions of a node, as a state machine without I/O.

pub mod bytes;
pub mod chat;
pub mod collections;
pub mod crypto;
pub mod hexcode;
pub mod identity;
pub mod ingest;
pub mod network;
pub mod node;
pub mod operation;
pub mod spaces;
pub mod store;
pub mod testing;
pub mod util;

pub use chat::message::{ChatMessage, ChatMessageContent};
pub use chat::{Chat, ChatId, ChatIdError};
pub use identity::{Digest, Ident, KeyError, PrivateKey, ShortId, Signature, PK};
pub use node::stream_processing::{Delivery, Inbound, PayloadPlan};
pub use node::{ChatOverview, Node, NodeConfig, NodeError, Notification};
pub use operation::{InvitationMessage, Payload};
pub use spaces::{ActorId, MemberCode};
