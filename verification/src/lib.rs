//! Editing core for a plain-text surface: a UTF-8 buffer with a cursor and an
//! optional selection, and the navigation, mutation and hit-testing rules
//! that keep every offset on a character boundary.

pub mod action;
pub mod buffer;
pub mod display;
pub mod editor;
pub mod font;
pub mod hit;
pub mod input;
pub mod laws;
pub mod layout;
pub mod lines;
pub mod motion;
pub mod state;
pub mod utf8;
pub mod words;

pub use action::{EditorAction, Outcome};
pub use buffer::TextBuffer;
pub use editor::TextEditor;
pub use input::{Command, HostStep, Key, KeyEvent, Modifiers};
pub use layout::LineView;
pub use motion::Motion;
pub use state::DragState;
pub use words::CharClass;
