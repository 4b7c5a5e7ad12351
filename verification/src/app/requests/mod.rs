//! The requests the command line hands to the services.

pub mod config;
pub mod groups;
pub mod reports;
