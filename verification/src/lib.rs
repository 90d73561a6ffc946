//! Supervision rules and template rendering for a long-lived proxy process.
//!
//! The crate holds the decisions only: how a commented template and an
//! environment snapshot become a configuration document, and what a
//! supervisor does next given what it has just observed. Files, signals,
//! clocks and child processes belong to the caller.

pub mod cli;
pub mod comments;
pub mod document;
pub mod envfile;
pub mod environment;
pub mod paths;
pub mod pidfile;
pub mod placeholder;
pub mod render;
pub mod stop;
pub mod supervisor;
pub mod text;
pub mod update;
pub mod warning;
