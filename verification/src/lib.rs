//! Verified editing core of a browser font editor: outline point topology
//! and the contour-editing commands, the drawing commands of UFO contours,
//! measurement labels, text-tool buffer editing, the mouse gesture state
//! machine, interpolation compatibility checks, outline signatures and the
//! image-trace request checks.

pub mod codepoints;
pub mod compat;
pub mod decimal;
pub mod editor;
pub mod glyph_renderer;
pub mod markers;
pub mod measure;
pub mod mouse;
pub mod outline;
pub mod signature;
pub mod text;
