//! Core logic of a virtual file system service: a tree of folders and files
//! addressed by dotted paths, per-user permissions that flow down the tree,
//! and the access decisions taken before every request is served.

pub mod ids;
pub mod models;
pub mod paths;
pub mod error;
pub mod order;
pub mod repo;
pub mod access;
pub mod handlers;
pub mod laws;
