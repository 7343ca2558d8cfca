//! The stages of a run: rendering, linking, package installation.

pub mod brew;
pub mod filesystem;
pub mod linker;
pub mod templating;
