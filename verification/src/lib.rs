//! Sandbox lifecycle library.

pub mod agent_socket;
pub mod catalog;
pub mod cloud;
pub mod create;
pub mod creation;
pub mod descriptors;
pub mod disks;
pub mod error;
pub mod host;
pub mod host_paths;
pub mod identity;
pub mod images;
pub mod launch;
pub mod lifecycle;
pub mod listing;
pub mod mounts;
pub mod namemap;
pub mod outside;
pub mod paths;
pub mod process_exit;
pub mod process_exit_macos;
pub mod reconcile;
pub mod records;
pub mod relay;
pub mod replace;
pub mod runtime_identity;
pub mod spawn;
pub mod staging;
pub mod text;
pub mod types;
pub mod volumes;
