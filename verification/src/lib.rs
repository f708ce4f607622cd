//! Verified core of a server for a distributed social network: signed,
//! content-addressed items, the store that indexes them, and the policies
//! that gate what is written to it and what is read back.

pub mod admin;
pub mod blobs;
pub mod bytes;
pub mod cache;
pub mod error;
pub mod hash;
pub mod icon;
pub mod ingest;
pub mod invariants;
pub mod keys;
pub mod laws;
pub mod model;
pub mod pagination;
pub mod rows;
pub mod seqs;
pub mod state;
pub mod store;
pub mod tables;
pub mod text;
pub mod time;
