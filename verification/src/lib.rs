//! An arena-backed document tree: stable node identities, attach and relocate
//! operations that keep parent/child bookkeeping consistent, and a depth-first
//! textual rendering of the tree.
//!
//! The arena owns every node ever created for a document and never frees one
//! individually, so an identity handed out once stays resolvable for the life
//! of the document. The document layer adds the root-anchored tree semantics
//! on top and is the interface a tree-construction algorithm drives.

pub mod arena;
pub mod document;
pub mod laws;
pub mod node;
pub mod occurrence;
pub mod render;
