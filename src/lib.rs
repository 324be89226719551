//! An in-memory image store with an HTTP-shaped read path that answers
//! conditional requests by entity tag.
pub mod http;
pub mod image;
pub mod store;
pub mod text;
