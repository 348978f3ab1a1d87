//! Lazy, read-only traversal of a slice in windows of `read_size` elements
//! whose starts lie `chunk_size` elements apart.
//!
//! [`model`] states what a traversal is as a mathematical cursor over a
//! sequence, [`traversal`] holds the executable [`Chonks`] type whose methods
//! are proved to follow that cursor, and [`laws`] proves what holds of every
//! cursor.

pub mod model;
pub mod laws;
pub mod traversal;

pub use traversal::Chonks;
