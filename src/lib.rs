//! The editing core of a text viewer: a character-addressed buffer, a cursor
//! with sticky-column vertical movement, word segmentation, selection
//! editing, and a line diff for display.
pub mod lines;
pub mod buffer;
pub mod segment;
pub mod cursor;
pub mod editor;
pub mod diff;

pub use buffer::TextBuffer;
pub use cursor::{Cursor, CursorGoal};
pub use diff::{CharRange, DiffLine, DiffLineKind, Differ};
pub use editor::{Editor, EditorState, Selection};
