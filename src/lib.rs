//! Shift scheduling core: the entity model, an in-memory store with the
//! persistence contract, the authorization rules and the expansion of weekly
//! rotation templates into dated shifts.

pub mod access;
pub mod auth;
pub mod clock;
pub mod error;
pub mod laws;
pub mod models;
pub mod repo;
pub mod table;
pub mod template;
pub mod text;
