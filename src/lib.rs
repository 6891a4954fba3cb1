//! Session persistence for `tower_sessions`: the store's create / save / load /
//! delete / purge algorithm, verified over an in-memory model of the session
//! table, together with the decisions that a database-backed store makes.

pub mod ids;
pub mod error;
pub mod record;
pub mod table;
pub mod laws;
