//! A screen-addressable text editor core: a bitmap font parsed from plain
//! image text, a lazily grown text buffer with cursor and scrolling viewport,
//! and a compositor that renders the visible cells into a packed-pixel
//! framebuffer.

pub mod common;
pub mod scan;
pub mod lines;
pub mod glyph;
pub mod font;
pub mod editor;
pub mod render;
pub mod input;
pub mod sprite;
