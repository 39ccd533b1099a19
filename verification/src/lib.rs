//! A local store for an oilfield asset hierarchy and its device measurements.
//!
//! The store keeps three levels of reference data (administrative unit,
//! workshop, well) and content-addressed measurement records that may point
//! into that hierarchy. A versioned migration engine brings the schema
//! catalog of a database up to date before the store is opened.
//!
//! - `records`: the four kinds of record and their mathematical views.
//! - `identity`, `payload`, `json`, `text`: what a record is made of: the
//!   content hash, structured payloads and the order of timestamps.
//! - `catalog`, `migration`, `schema`, `sql`: the schema catalog, the engine
//!   that evolves it, the schema of this store and its text in SQL.
//! - `database`, `query`: the database and its queries as mathematics.
//! - `store`: the database in memory and the operations on it.
//! - `laws`: what holds of every database.

pub mod catalog;
pub mod database;
pub mod error;
pub mod identity;
pub mod json;
pub mod laws;
pub mod migration;
pub mod payload;
pub mod query;
pub mod records;
pub mod schema;
pub mod sql;
pub mod store;
pub mod text;
