//! A package manager's resolution and installation engine, together with the
//! virtual system layer (filesystem table, permissions, module loading rules)
//! that the runtime around it consults.

pub mod model;
pub mod text;
pub mod semver;
pub mod package;

pub mod npm;
pub mod scoped_path;
pub mod plan;
pub mod cache;
pub mod resolve;
pub mod forest;
pub mod lockfile;
pub mod commands;
pub mod vsys;
pub mod progress;
pub mod bundler;
pub mod options;
pub mod runtime;
pub mod repl;
pub mod access;
