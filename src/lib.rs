//! A small peer-to-peer relay node: the decisions of its event loop, the
//! registry of its dialable address, and the bridge that answers address
//! queries, all stated and proved with Verus.

pub mod bridge;
pub mod chat;
pub mod inputs;
pub mod laws;
pub mod mesh;
pub mod message;
pub mod node;
pub mod registry;
pub mod text;

pub use bridge::{QueryError, RequestOutcome};
pub use chat::SimpleChat;
pub use inputs::{ControlledComponent, UncontrolledComponent};
pub use mesh::{PeerState, CHAT_TOPIC};
pub use message::{make_msg, message_id, payload_text, ServerResponse};
pub use node::{Node, NodeAction, NodeEvent};
pub use registry::{AddressRegistry, ListenAddress};
