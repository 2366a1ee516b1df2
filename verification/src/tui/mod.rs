//! The terminal side of the editor: regions, styled cells, grids of cells and
//! the renderer that turns two grids into terminal commands.

pub mod buffer;
pub mod command;
pub mod frame;
pub mod rect;
pub mod screen;
pub mod style;
pub mod terminal;
pub mod text;

pub use frame::Frame;
pub use rect::Rect;
pub use style::{Color, Style};
pub use terminal::Terminal;
pub use text::{Render, Text};
