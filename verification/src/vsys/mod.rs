//! The virtual system layer: what the runtime may touch of the filesystem,
//! the network and the environment, and how modules are found.

pub mod path;
pub mod error;
pub mod permissions;
pub mod fs;
pub mod json;
pub mod module_loader;
pub mod system;
