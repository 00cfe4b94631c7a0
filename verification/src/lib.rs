//! Label-driven orchestration of an issue → plan → implementation → review pipeline:
//! label configuration, pipeline-stage classification, metadata parsing and
//! template installation.
pub mod config;
pub mod context;
pub mod fs;
pub mod gh;
pub mod git;
pub mod labels;
pub mod metadata;
pub mod pipeline;
pub mod templates;
pub mod text;
