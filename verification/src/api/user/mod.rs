//! The user account.

pub mod models;
