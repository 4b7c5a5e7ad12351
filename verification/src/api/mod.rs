//! The DRACOON API: request and response models and the pure parts of its
//! calls.

pub mod auth;
pub mod builder;
pub mod constants;
pub mod errors;
pub mod models;
pub mod nodes;
pub mod user;
