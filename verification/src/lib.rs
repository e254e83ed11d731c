//! Wisp: the document model of a design canvas, its tree store with
//! snapshot-based undo, the text rendering of the tree, the built-in
//! component templates, and the JSON-RPC command logic that drives them.

pub mod model;
pub mod store;
pub mod undo;
pub mod text;
pub mod tree;
pub mod components;
pub mod protocol;
pub mod workspace;
pub mod load;
pub mod cli;
pub mod client;
pub mod screenshot;
