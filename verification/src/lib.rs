//! A line-oriented pattern search engine.
//!
//! Given a pattern and the bytes of a source, the library decides which lines are
//! reported and renders the report as bytes:
//!
//! - [`args`] reads a command line into a [`config::Config`];
//! - [`pattern`] composes the pattern that is compiled and calls the `regex` crate;
//! - [`segment`] splits a source into lines at every line feed;
//! - [`select`] says which lines are reported under a ceiling, and how far evaluation
//!   goes;
//! - [`render`] writes the records of a reported line and what closes a report;
//! - [`scan`] keeps the running state of one source;
//! - [`matcher`] searches one source from its bytes to its report;
//! - [`walk`] orders the work over sources and directories.
//!
//! Reading files and writing the report is left to the caller.

pub mod args;
pub mod config;
pub mod matcher;
pub mod pattern;
pub mod render;
pub mod scan;
pub mod segment;
pub mod select;
pub mod text;
pub mod walk;
