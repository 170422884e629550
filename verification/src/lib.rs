//! Order-management core for a small restaurant service: tables that check in
//! and out, menu items, and order lines, kept consistent by verified store
//! operations.

pub mod entities;
pub mod error;
mod external;
pub mod interfaces;
pub mod laws;
pub mod lemmas;
pub mod model;
pub mod store;

pub use error::ApiError;
