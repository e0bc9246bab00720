//! An interactive shell front-end, verified where it counts.
//!
//! A line of input names one or more programs connected by pipes.  The
//! library parses such a line into command descriptors, classifies the
//! built-ins (`cd`, `exit`), and decides, step by step, how a pipeline is
//! run: which stage is spawned next, where its standard input and output
//! come from, and when the final stage is waited on.  The process spawning
//! itself is plain I/O and lives outside the library; the library hands it
//! exact instructions and takes back the outcome of each one.

pub mod command;
pub mod pipeline;
pub mod builtins;
pub mod orchestrate;
