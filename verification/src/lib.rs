//! Bootstraps a home directory from a declarative template repository:
//! configuration and secrets feed a rendering context, templates are rendered
//! against it, and the results are linked into the home directory through a
//! sequence of planned filesystem operations.

pub mod application;
pub mod config;
pub mod errors;
pub mod services;
pub mod text;
pub mod infrastructure;
pub mod value;

pub use errors::DotstrapError;
pub use application::ExecutionReport;
