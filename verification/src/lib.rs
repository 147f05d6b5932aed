//! An embeddable terminal front end: a bounded scrollback log, a single-line
//! command editor with history, and the rules that turn both into a frame.

pub mod classify;
pub mod frame;
pub mod logger;
pub mod messages;
pub mod repl;
pub mod text;
pub mod ui;
