//! Core state of a terminal pixel-art editor: an indexed-color canvas with
//! bounds-checked access and non-destructive resizing, a cursor whose mode
//! gates mutation, a CSV snapshot of the canvas, and the contract an output
//! target must meet to display it.
mod buffer;
mod color;
mod cursor;
mod export;
mod palette;
mod position;
mod render;

pub use buffer::{Buffer, OutOfRangeError, RawBuffer};
pub use color::{Brush, Color};
pub use cursor::{Cursor, DrawError, Mode, ModeError};
pub use export::{usize_to_string, SerializationError};
pub use palette::Colors;
pub use position::Position;
pub use render::{CellRecorder, RenderError, Renderable};
