//! Packages pre-built binary release artifacts for distribution through an
//! npm-style registry and a Homebrew-style formula repository.
//!
//! The library holds the release-packaging logic: version resolution,
//! idempotent per-target artifact acquisition planning, and the per-provider
//! publish workflow (template rendering, manifest synthesis, version-gated
//! publish decisions). Network and filesystem work is driven by a thin
//! unverified binary around this crate.

pub mod strutil;
pub mod error;
pub mod console;
pub mod version;
pub mod codec;
pub mod manifest;
pub mod data;
pub mod npm;
pub mod brew;
pub mod download;
pub mod github;
pub mod runner;
