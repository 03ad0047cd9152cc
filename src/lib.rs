//! Battery-level tray icons: a glyph renderer for numeric status values and
//! the selection state machine that keeps a tray icon in step with them.

pub mod ascii_art;
pub mod logitech;
pub mod tray;
