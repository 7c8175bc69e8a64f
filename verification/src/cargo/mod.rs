//! From the manifest of a package to its entry file.

pub mod manifest;
pub mod resolver;

pub use manifest::{Manifest, ManifestData, Package};
pub use resolver::entry_file;
