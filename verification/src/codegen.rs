//! From compiled nodes to the text that the runtime loads.

pub mod block;
pub mod decode;
pub mod error;
pub mod graph;
pub mod mutation;
pub mod node_id;
pub mod signature;
