//! A line editor for terminal prompts, with optional vim key bindings.

pub mod text;
pub mod lines;
pub mod words;
pub mod selection;
pub mod keys;
pub mod terminal;
pub mod session;
pub mod completion;
pub mod model;
pub mod editor;
pub mod reading;
pub mod laws;
pub mod word_laws;
pub mod session_laws;
pub mod key_laws;
pub mod cycle_laws;
pub mod line_laws;
pub mod paint_laws;
pub mod reading_laws;
