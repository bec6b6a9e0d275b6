//! Trigger-and-session logic of a desktop capture companion: the screen-edge
//! trigger, the global-shortcut lifecycle, the clipboard capture protocol and
//! the small text rules (settings, note paths, image links) around them.

pub mod capture;
pub mod edge_detect;
pub mod image_handler;
pub mod log_safety;
pub mod selected_text;
pub mod settings;
pub mod shortcuts;
pub mod text;
