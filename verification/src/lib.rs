//! Font lookup for text painting: which font shows a character, how wide it is, and
//! where its picture lies in the texture.
//!
//! A [`font::Font`] is a list of fonts, the first of which that supports a character
//! shows it. The fonts themselves, each a [`font_impl::FontImpl`], live in a
//! [`store::FontStore`] together with the texture that they are drawn into. Glyphs are
//! rasterized and measured when they are first asked for, and remembered.
//!
//! No floating-point number is calculated here, and no outline is filled. The store is
//! handed a function that works out lengths in points from a [`measure::Measure`], and one
//! that rasterizes glyphs, see [`render`].

pub mod atlas;
pub mod cache;
pub mod character;
pub mod face;
pub mod fallback;
pub mod font;
pub mod font_impl;
pub mod glyph;
pub mod laws;
pub mod laws_drawing;
pub mod laws_files;
pub mod laws_fonts;
pub mod laws_lookup;
pub mod laws_texts;
pub mod measure;
pub mod number;
pub mod placement;
pub mod render;
pub mod store;
pub mod tables;
