//! Core of a graphical front end for a remote text editor: decoding of the
//! editor's redraw events into mutations of a character grid, the grid state
//! store those mutations act on, and the outline of the animated cursor.

pub mod color;
pub mod cursor;
pub mod editor;
pub mod lemmas;
pub mod redraw;
pub mod value;
