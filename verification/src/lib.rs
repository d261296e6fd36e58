//! Terminal-state library: cells, grid, cursor, scrollback, selection and the
//! terminal session that ties them together, with the surrounding pieces of
//! the renderer, the ANSI layer and the configuration that are pure logic.

pub mod atlas;
pub mod cell;
pub mod colors;
pub mod config;
pub mod cursor;
pub mod cpu_backend;
pub mod cursor_renderer;
pub mod damage;
pub mod font;
pub mod frame_cells;
pub mod frame_damage;
pub mod frontend;
pub mod glyph_cache;
pub mod grid;
pub mod keys;
pub mod manager;
pub mod scrollback;
pub mod parser;
pub mod pty_config;
pub mod pty_error;
pub mod render;
pub mod render_error;
pub mod selection;
pub mod terminal;
pub mod text;
pub mod workspace;

pub use cell::{Attributes, Cell, Color};
pub use cursor::Cursor;
pub use grid::Grid;
pub use scrollback::{Row, ScrollbackBuffer};
pub use selection::{CellSource, Selection, SelectionMode};
pub use terminal::Terminal;
