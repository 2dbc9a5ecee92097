//! Verified core of a desktop control panel that launches long-running
//! administrative commands and streams their output to a user interface.
//!
//! The core is the logic around an execution: tokenizing the command line,
//! classifying each output line by its textual markers, tracking spawned
//! process ids in a registry, deciding the lines emitted on every spawn and
//! exit path, and pumping the resulting stream into display text until the
//! terminal sentinel arrives. Process spawning, threads, and the widget
//! toolkit live outside this crate and hand plain values in and out.
pub mod bridge;
pub mod classify;
pub mod engine;
pub mod lines;
pub mod registry;
pub mod text;
