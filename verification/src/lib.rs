//! File history tracking: the verified core of `fhist`.
pub mod adapters;
pub mod cli;
pub mod domain;
pub mod output;
pub mod paths;
pub mod text;
pub mod watcher;
