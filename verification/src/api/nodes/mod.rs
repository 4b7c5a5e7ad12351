//! Nodes: rooms, folders and files.

pub mod models;
pub mod nodes;
pub mod upload;
