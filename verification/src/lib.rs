//! Plain-text rendering of documentation nodes: one node at a time, or a whole
//! list ordered by kind and name.

pub mod node;
pub mod text;
pub mod layout;
pub mod doc_node_printer;
pub mod laws;
