//! Presentation core of a terminal text-editor front end.
//!
//! The crate keeps a local mirror of the visible window of a remote
//! document: a line cache that is rewritten by ordered diff operations
//! coming from the editing backend, and a view that turns the cache, a
//! cursor and a viewport into the escape sequences a character-cell
//! terminal understands.

pub mod cache;
pub mod errors;
pub mod protocol;
pub mod view;
pub mod window;
