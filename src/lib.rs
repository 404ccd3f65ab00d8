//! Imports a source directory tree into a target tree: sanitized file names,
//! optional year/month folders, and a size-bucketed index that skips files
//! whose bytes equal one already imported.

mod clock;
pub mod names;
pub mod paths;
pub mod index;
pub mod batch;
pub mod config;
pub mod pipeline;
