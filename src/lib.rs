//! Bookkeeping for local package links: a registry of packages, the
//! decisions that reconcile it with what is linked on disk, and the small
//! text rules around them (suggestions, command arguments, paths).

pub mod angular;
pub mod config;
pub mod error;
pub mod generate;
pub mod ng;
pub mod npm;
pub mod package;
pub mod platform;
pub mod probe;
pub mod scanner;
pub mod text;
pub mod tui;
pub mod watch;
pub mod workspace;
