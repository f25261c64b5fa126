//! A URL-shortening service core: identifier generation, an in-memory model
//! of the link store with its statistics, API-key authentication, and the
//! request handlers that map store outcomes to HTTP-level results.

pub mod auth;
pub mod models;
pub mod routes;
pub mod store;
pub mod utils;
