//! Verified core of a command line client for the DRACOON cloud storage service:
//! request models, query strings, filters and sorts, path handling and the
//! decisions that drive uploads, downloads and authentication.

pub mod api;
pub mod app;
pub mod constants;
pub mod errors;
pub mod text;
