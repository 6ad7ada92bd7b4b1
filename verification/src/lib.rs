//! Verified core of a terminal interaction enhancer: command history, macros,
//! templates, output search, collapsible output regions, the output display
//! model and a grapheme-aware input line editor.

pub mod app;
pub mod config;
pub mod input;
pub mod output;
pub mod pattern;
pub mod string_map;
pub mod text;
pub mod view;
pub mod widgets;
