//! A small modal text editor for the terminal.
//!
//! The library has two halves. [`tui`] is the renderer: a grid of styled
//! cells is drawn to, compared with the grid that the terminal shows, and
//! turned into the few commands that bring the terminal up to date.
//! [`editor`] is the text: a rope with a cursor that is addressed by column
//! and line, and the edits that keep the cursor in the text. [`config`] says
//! which key asks for what, [`editor_view`] draws an editor to the screen,
//! and [`args`] takes the command line.
//!
//! The library does no input or output: the program around it reads the
//! keys and the file, and writes what the library hands it.

pub mod args;
pub mod config;
pub mod editor;
pub mod editor_view;
pub mod tui;
