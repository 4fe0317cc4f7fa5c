//! A persistent knowledge graph: named entities with typed relations
//! between them and free-text observations about them, kept in an embedded
//! SQLite database and searched through its full-text index.
//!
//! The store is [`storage::Database`]. Each of its operations is one
//! transaction on a pooled connection: it checks the whole input first
//! ([`validation`]), hands statements to the engine ([`sqlite`]), and
//! decides from what the engine reports ([`rules`], [`observations`],
//! [`codec`]). The texts that reach the engine are built in [`text`].
//!
//! What the library computes is proved against the contracts in these
//! modules. What the engine finds in the database file or changes in it is
//! the engine's word: the contracts of the store say what holds whatever
//! the engine reported.

pub mod codec;
pub mod error;
pub mod graph;
pub mod logging;
pub mod observations;
pub mod rules;
pub mod sqlite;
pub mod storage;
pub mod text;
pub mod validation;
