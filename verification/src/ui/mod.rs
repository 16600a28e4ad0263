//! The terminal interface: cells, the frame buffer, and the regions that
//! draw into it.

pub mod event;
pub mod framebuffer;
pub mod regions;
pub mod screen;
pub mod tui;
