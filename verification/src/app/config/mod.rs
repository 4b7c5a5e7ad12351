//! The config command: stored credentials and system information.

pub mod api;
pub mod service;
pub mod target_laws;
