//! Editing and rendering core of a small terminal text editor: a text buffer
//! with a clamped cursor, a cell grid that is painted and flushed in one pass,
//! a status line, and a cyclic theme selector.
//!
//! Lines end at `'\n'` only: a carriage return, or a Unicode line or
//! paragraph separator, is an ordinary character of its line.

pub mod buffer;
pub mod config;
pub mod editor;
pub mod text;
pub mod theme;
pub mod ui;
