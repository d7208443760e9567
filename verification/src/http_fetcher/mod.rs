//! Segmented HTTP downloads: what to request, what to write and when to stop.
pub mod config;
pub mod failure;
pub mod fetch;
pub mod laws;
pub mod plan;
pub mod promises;
pub mod resume;
pub mod run;
pub mod segment;
pub mod stream;
pub mod transfer;
pub mod worker;
