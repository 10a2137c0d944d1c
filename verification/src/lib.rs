//! The model layer of a modal terminal text editor: a piece table that stores
//! the text of a buffer, the windows, tabs and focus rules that arrange
//! buffers on the terminal canvas, and what the keys of each mode do to them.
//!
//! The library reads no key and draws no cell: it takes events as plain
//! values and says what the editor is afterwards.

pub mod editor;
pub mod indexvec;
pub mod settings;
pub mod terminal;
pub mod text;
pub mod ui;
pub mod util;
