//! Command-level services of the client.

pub mod auth;
pub mod config;
pub mod groups;
pub mod handlers;
pub mod messages;
pub mod models;
pub mod nodes;
pub mod outcome;
pub mod reports;
pub mod requests;
pub mod results;
