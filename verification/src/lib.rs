//! The core of a small terminal text editor: grapheme-aware rows of text, the
//! document made of them, and the cursor, viewport, prompt and session rules
//! that turn key events into edits. Screen and keyboard I/O are left to the
//! program that drives an [`editor::Editor`].

pub mod cursor;
pub mod document;
pub mod editor;
pub mod grapheme;
pub mod row;
pub mod screen;
pub mod terminal;

pub use document::Document;
pub use editor::Position;
pub use row::Row;
