//! Descriptor resolution for Python projects: reads the sections of a project
//! manifest into one canonical dependency model, merges the dialects found in
//! it, expands requirements that point at local directories, and renders a
//! new manifest.

pub mod error;
pub mod text;
pub mod version;
pub mod constraint;
pub mod req;
pub mod manifest;
pub mod config;
pub mod reading;
pub mod writing;
pub mod lines;
pub mod local;
pub mod laws;
