//! Termie: the logic of a small graphical terminal.
//!
//! The library holds what the terminal decides and computes; the program
//! around it does the reading, writing, drawing and process spawning.
pub mod history;
pub mod text;
pub mod clock;
pub mod command;
pub mod gemini;
pub mod mkdir;
pub mod terminal;
