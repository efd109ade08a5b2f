//! Keyboard and mouse overlay logic: keyboard layouts, layout detection,
//! typing statistics, input-event handling and pixel blending.

pub mod stats;
pub mod text;
pub mod layout;
pub mod layout_detect;
pub mod input;
pub mod cli;
pub mod render;
