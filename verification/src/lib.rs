pub mod broadcast;
pub mod counter;
pub mod decimal;
pub mod echo;
pub mod error;
pub mod message;
pub mod node;
pub mod seq_kv_client;
pub mod unique_ids;

pub use error::MaelstromError;
pub use message::MaelstromMessage;
pub use node::{node_id, parse_node_id, Handler, Node};
