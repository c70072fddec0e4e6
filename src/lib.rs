//! An in-memory collection of book records with create, read, update and
//! delete operations, and the request-level replies built on top of it.
//!
//! The collection keeps insertion order and stamps every stored record with a
//! non-empty identifier that no other stored record carries.

pub mod book;
pub mod store;
pub mod ident;
pub mod service;
pub mod laws;
