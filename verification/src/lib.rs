//! Core logic of a command-line helper that probes binaries for their
//! help/version flags and offers alternate documentation sources.
//!
//! The heart of the crate is the template substitution engine in [`template`],
//! a small domain-specific language for building dynamic strings (URLs, shell
//! commands) from a map of runtime values, together with the command splitter
//! in [`cmd_parse`] that produces those values from a raw command line.

pub use vstd::hash_map::StringHashMap;

/// Argument variants used for the default checks.
pub mod args;

/// Command-line argument data and how it updates the configuration.
pub mod cli;

/// Command splitter: tokenizes a command line into named values.
pub mod cmd_parse;

/// Configuration.
pub mod config;

/// Help and version check variants, including the subcommand spellings.
pub mod common;

/// The computing parts of the operation handlers.
pub mod handlers;

/// Plz menu configuration.
pub mod plz_menu;

/// Help page providers and the URLs they are asked for.
pub mod providers;

/// Command executor for TTY.
pub mod tty;

/// String helpers shared by the parsing modules.
pub mod strutil;

/// Template substitution engine.
pub mod template;

/// Laws of the template substitution engine, proved once for all inputs.
pub mod template_laws;
