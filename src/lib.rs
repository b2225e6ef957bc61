//! Relay-style cursor connections over an in-memory graph of film and person
//! records, with a verified identifier codec and pagination engine.
pub mod connection;
pub mod ident;
pub mod node;
pub mod schema;
pub mod store;
