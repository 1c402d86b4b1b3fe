//! Keeps a launcher directory of shortcuts in step with the application
//! bundles found in an external directory.
pub mod batch;
pub mod bundle;
pub mod config;
pub mod engine;
pub mod launch_agent;
pub mod laws;
