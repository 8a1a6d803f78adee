//! A modal terminal text editor core: a grapheme-aware line buffer with a
//! per-line highlight cache, word navigation, a viewport that follows the
//! cursor, and the Normal/Insert mode state machine.

pub mod document;
pub mod editor;
pub mod highlighting;
pub mod keys;
pub mod layout;
pub mod line;
pub mod mode;
pub mod statusbar;
pub mod term;
pub mod text;
pub mod viewport;
pub mod words;

pub use document::{Document, RichLine};
pub use editor::Editor;
pub use highlighting::{HighlightedSegment, Highlighter};
pub use keys::{Action, InputEvent, Key, KeyPress, Modifiers};
pub use line::Line;
pub use mode::Mode;
pub use statusbar::StatusBar;
pub use term::Terminal;
