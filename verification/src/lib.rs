//! Verified core of a desktop translation helper: hotkey parsing, text
//! cleanup, JSON reply interpretation, request planning and window placement.

pub mod text;
pub mod hotkey;
pub mod json;
pub mod lm_studio;
pub mod url_query;
pub mod desktop;
pub mod commands;
