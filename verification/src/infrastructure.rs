//! Collaborators at the edge of a run: commands, the repository, secrets.

pub mod command;
pub mod repository;
pub mod secrets;
