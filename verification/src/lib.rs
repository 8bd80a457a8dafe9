//! Rebuilds the bitmap font of two Sega Saturn role-playing games from glyph
//! images: classifies pixels into the games' four 2-bit palette codes, reorders
//! and packs them into the native 2-bits-per-pixel tile layout, assembles the
//! per-glyph blocks into a font blob, and patches the compressed blob into the
//! games' SYSTEM.DAT container at its fixed offset.

pub mod codec;
pub mod codepoint;
pub mod compress;
pub mod consts;
pub mod errors;
pub mod font;
pub mod patch;
