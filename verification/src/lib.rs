//! A text buffer for a line editor.
//!
//! A [`Document`] is an ordered sequence of [`Row`]s. Every edit and every
//! search is addressed in grapheme clusters, the characters a reader
//! perceives, never in bytes or scalar values, so no edit can cut a cluster
//! in two. An [`Editor`](editor::Editor) drives a document from key events
//! and keeps the window on the cursor.
pub mod cluster;
pub mod document;
pub mod editor;
pub mod event;
pub mod grapheme;
pub mod laws;
pub mod model;
pub mod row;
pub mod screen;
pub mod terminal;
pub mod text;

pub use document::Document;
pub use editor::Position;
pub use row::Row;
pub use terminal::Terminal;
