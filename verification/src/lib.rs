//! A terminal typing test: the typing engine, the session state machine,
//! settings, command-line validation, word generation and screen layout.

pub mod app;
pub mod cli;
pub mod engine;
pub mod laws;
pub mod layout;
pub mod model;
pub mod store;
pub mod text;
pub mod words;
