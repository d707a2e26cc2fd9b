//! Structured view of a chezmoi-managed home directory.
//!
//! The library decides which `chezmoi` commands to run and turns their
//! captured output into per-file state records; running the commands is
//! left to the caller.

pub mod command;
pub mod reconcile;
pub mod status;
pub mod text;
