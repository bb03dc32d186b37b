//! Turns a Debian package into a sandboxed container image and keeps a
//! registry of the programs installed that way.
//!
//! The crate holds the verified core of the pipeline: control-metadata
//! parsing, dependency normalization, feature/capability validation,
//! deterministic build-specification rendering, container-argument
//! derivation, and the program registry with its persistence format.
//! Everything that touches the host (archive extraction, the container
//! engine, the filesystem) lives outside and talks to this crate through
//! plain values.

pub mod error;
pub mod text;
pub mod sys;
pub mod program;
pub mod json;
pub mod config;
pub mod deb;
pub mod buildspec;
pub mod features;
pub mod docker;
pub mod app;
