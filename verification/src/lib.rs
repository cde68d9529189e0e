//! Verified core of a drop-down Wayland terminal: the colour model, pixel
//! compositing, keyboard encoding, shortcut and tray descriptions, and the
//! decisions taken on surface and terminal events.

pub mod palette;
pub mod raster;
pub mod keys;
pub mod shortcut;
pub mod tray;
pub mod surface;
pub mod term;
