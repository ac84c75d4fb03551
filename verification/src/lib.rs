//! WireBox's core engine: the application catalog, the layout of the
//! shared Wine prefix, and the install/launch workflows, each written as a
//! verified state machine that hands its system operations to the caller.
pub mod error;
pub mod process;
pub mod text;
pub mod paths;
pub mod catalog;
pub mod audio;
pub mod config;
pub mod search;
pub mod wine;
pub mod dependencies;
pub mod bootstrap;
pub mod library;
pub mod presentation;
pub mod world;
