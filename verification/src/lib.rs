//! Core of an interactive terminal front-end for everyday git workflows.
//!
//! The crate owns the typed application state: UI modes, the changed-file
//! list with its selection, the commit draft buffer, and the transient
//! notification. Input handling is a pure transition function from state
//! and key to new state plus a requested repository action; parsing of the
//! repository tool's machine-readable output is likewise pure. All terminal
//! and subprocess work stays outside the library and feeds plain values in.

pub mod model;
pub mod parse;
pub mod state;
pub mod laws;
