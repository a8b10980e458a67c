//! Control and rendering engine for a touch-driven music panel on a bistable
//! display: a retained tree of controls, the draw targets it renders to, and
//! the driver that turns a framebuffer into the panel's wire operations.

pub mod app;
pub mod epaper;
pub mod gui;
pub mod library;
pub mod playback;
