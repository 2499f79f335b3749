//! Per-user records of recently accessed services.
//!
//! For each user the library keeps which services the user has accessed, in
//! the order of the last access. An activity event moves its service to the
//! end of the user's record; a query reads the record. The records live in a
//! key-value store outside the library, as attribute trees.
//!
//! - `model`: the records and the events, and their mathematical views.
//! - `merge`: one event merged into one record, and the laws of the merge.
//! - `tree`: the attribute tree of the store.
//! - `codec`: records to trees and back, and the laws of the round trip.
//! - `store`: what a fetch from the store comes back with.
//! - `ingest`: the handling of one inbound message, step by step.
//! - `query`: the answer to a query.
//!
//! The library does no input or output. A caller decodes payloads, talks to
//! the store and hands the library what came back.

pub mod codec;
pub mod ingest;
pub mod merge;
pub mod model;
pub mod query;
pub mod store;
pub mod tree;
