//! A multi-tenant full-text search library: every tenant owns one index, kept
//! in a directory of its own, and sees no document but its own.

pub mod auth;
pub mod clock;
pub mod config;
pub mod engine;
pub mod error;
pub mod handle;
pub mod ids;
pub mod index_manager;
pub mod laws;
pub mod models;
pub mod paging;
pub mod reading;
pub mod records;
pub mod routes;
pub mod schema;
pub mod text;
pub mod validation;
