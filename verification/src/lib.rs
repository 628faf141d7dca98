//! Package-manager observation and maintenance planning: the parsers of each
//! manager's command output, the snapshot status rules, the allowlisted
//! cleanup plans and their execution protocol, and the build-artifact
//! registry.
pub mod text;
pub mod types;
pub mod command;
pub mod path;
pub mod json;
pub mod scan_support;
pub mod cleanup;
pub mod pip;
pub mod disk_usage;
pub mod node;
pub mod cargo;
pub mod build_artifacts;
pub mod uv;
pub mod bun;
pub mod docker;
pub mod homebrew;
pub mod maven;
pub mod maven_repository;
pub mod session_records;
pub mod session_lines;
pub mod vscode_storage;
