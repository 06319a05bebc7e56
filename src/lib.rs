//! A semantic memory store: short text records with tags, metadata and an
//! embedding profile, answering substring queries and similarity ranking.
pub mod text;
pub mod embedding;
pub mod ranking;
pub mod record;
pub mod store;
pub mod service;
pub mod client;
pub mod vault;
