# epaint_font

Font lookup for text painting: which font shows a character, how wide it is, and
where its picture lies in the texture. The library is verified with Verus.

- `src/character.rs`: characters that get special treatment in every font.
- `src/number.rs`, `src/glyph.rs`, `src/measure.rs`: numbers carried by their bits,
  glyphs and their images, and the quantities that are measured in points.
- `src/atlas.rs`, `src/placement.rs`: the texture, and drawing a glyph into it.
- `src/tables.rs`: what is tested in a font file before something is looked up in it.
- `src/render.rs`: the function that rasterizes glyphs, which the library is handed.
- `src/cache.rs`, `src/face.rs`: what is taken from `ahash` and `cosmic_text`. The
  contracts of the functions there that call these crates are believed, not proved, and
  so is that of `char::from_u32` in `src/character.rs`; everything else rests on them.
- `src/font_impl.rs`: one font at one size.
- `src/store.rs`: the fonts in use, which share a texture.
- `src/fallback.rs`, `src/font.rs`: a font with its fallbacks.
- `src/laws.rs`: what holds of the library as a whole.
- `app/`: floating-point arithmetic, rasterizing, which may load faces from disk, and
  shared ownership around the library. Only this part uses `serde` and `log`.

The library does no floating-point arithmetic and rasterizes nothing. It is handed a
function that works out lengths in points and one that rasterizes glyphs, and what is
proved holds for all such functions.
