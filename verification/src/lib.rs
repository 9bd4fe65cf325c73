//! An in-memory catalogue of items behind a small HTTP-shaped surface.
//!
//! `models` holds the record type, the store contract and the store itself;
//! `handlers` turns a store outcome into a reply; `routes` decides which
//! handler answers a request.

pub mod handlers;
pub mod models;
pub mod routes;
