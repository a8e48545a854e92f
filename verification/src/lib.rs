//! A session manager for pseudo-terminals.
//!
//! The crate holds the bookkeeping of a terminal host: which sessions exist,
//! under which identifiers, with which dimensions, and what each request and
//! each read from a terminal leads to. The terminals, the shells and the
//! bytes are the caller's: it allocates, spawns, reads and writes, and tells
//! the manager how each of those steps ended.
//!
//! The crate itself turns to the system in one place: opening a session
//! draws its identifier from the system's random source, and panics where
//! the system gives no random bytes.

pub mod error;
pub mod geometry;
pub mod shell;
pub mod text;
pub mod session;
pub mod registry;
pub mod ident;
pub mod model;
pub mod manager;
pub mod streamer;
pub mod laws;
