//! Text rendering support for an on-screen-display overlay: a glyph atlas
//! cache with font-fallback lookup, text measurement and draw layout, plus
//! small helpers for grid dimensions and fixed byte strings.

pub mod atlas;
pub mod duration;
pub mod fixed;
pub mod fonts;
pub mod glyph;
pub mod grid;
