//! A terminal text editor's core: the line buffer and its edits, the
//! cursor and viewport, tab-aware rendering of the visible window, and the
//! decoding of raw key bytes.

pub mod editor;
pub mod keys;
pub mod session;
pub mod text;
pub mod view;
