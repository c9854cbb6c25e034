//! Per-user link storage: links kept for numeric user identifiers, with
//! insertion, queries, an existence check and deletion.
//!
//! `database` holds the store and its operations, `relation` and `laws` say
//! what the operations mean and what follows from that, `statement`,
//! `session` and `sqlite` carry a request to a database and its answer back,
//! `decimal` writes and reads user identifiers as text, and `error` names
//! the failures.
pub mod database;
pub mod decimal;
pub mod error;
pub mod laws;
pub mod record;
pub mod relation;
pub mod session;
pub mod sqlite;
pub mod statement;
