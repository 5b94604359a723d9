use cosmic_text::fontdb::{Database, Source};
use cosmic_text::{CacheKey, CacheKeyFlags, FontSystem, SwashCache, SwashContent};
use epaint_font::atlas::TextureAtlas;
use epaint_font::font::Font;
use epaint_font::font_impl::FontImpl;
use epaint_font::glyph::{GlyphError, GlyphImage, GlyphInfo, ImageContent, UvRect};
use epaint_font::measure::{FontScale, Measure, TAB_SIZE};
use epaint_font::number::{Float32, Vec2};
use epaint_font::store::FontStore;
use std::cell::RefCell;
use std::sync::Arc;

/// A glyph of a test font: its advance width, and the box that it consists of.
type TestGlyph = (u16, Option<(i16, i16)>);

fn u16s(values: &[u16]) -> Vec<u8> {
    values.iter().flat_map(|v| v.to_be_bytes()).collect()
}

fn u32s(values: &[u32]) -> Vec<u8> {
    values.iter().flat_map(|v| v.to_be_bytes()).collect()
}

fn box_outline(width: i16, height: i16) -> Vec<u8> {
    let (w, h) = (width as u16, height as u16);
    let mut out = u16s(&[1, 0, 0, w, h]);
    out.extend(u16s(&[3, 0]));
    out.extend([1u8, 1, 1, 1]);
    out.extend(u16s(&[0, 0, w, 0]));
    out.extend(u16s(&[0, h, 0, h.wrapping_neg()]));
    while out.len() % 4 != 0 {
        out.push(0);
    }
    out
}

/// A TrueType font of 1000 units per em with these glyphs, and a character map from
/// code points, which must be sorted, to glyphs.
fn font_file(glyphs: &[TestGlyph], charmap: &[(u32, u32)]) -> Vec<u8> {
    let count = glyphs.len() as u16;

    let mut head = u32s(&[0x0001_0000, 0x0001_0000, 0, 0x5F0F_3CF5]);
    head.extend(u16s(&[0, 1000]));
    head.extend(u32s(&[0, 0, 0, 0]));
    head.extend(u16s(&[0, 0, 1000, 1000, 0, 8, 2, 1, 0]));

    let mut hhea = u32s(&[0x0001_0000]);
    hhea.extend(u16s(&[800, 200u16.wrapping_neg(), 0, 1000, 0, 0, 1000, 1, 0, 0]));
    hhea.extend(u16s(&[0, 0, 0, 0, 0, count]));

    let mut maxp = u32s(&[0x0001_0000]);
    maxp.extend(u16s(&[count, 4, 1, 0, 0, 2, 0, 0, 0, 0, 0, 0, 0, 0]));

    let mut hmtx = Vec::new();
    let mut glyf = Vec::new();
    let mut loca = u32s(&[0]);
    for (advance, outline) in glyphs {
        hmtx.extend(u16s(&[*advance, 0]));
        if let Some((w, h)) = outline {
            glyf.extend(box_outline(*w, *h));
        }
        loca.extend(u32s(&[glyf.len() as u32]));
    }

    let mut cmap = u16s(&[0, 1, 3, 10]);
    cmap.extend(u32s(&[12]));
    cmap.extend(u16s(&[12, 0]));
    cmap.extend(u32s(&[16 + 12 * charmap.len() as u32, 0, charmap.len() as u32]));
    for (code_point, glyph) in charmap {
        cmap.extend(u32s(&[*code_point, *code_point, *glyph]));
    }

    let text: Vec<u8> = "Test".encode_utf16().flat_map(|v| v.to_be_bytes()).collect();
    let mut name = u16s(&[0, 2, 6 + 2 * 12]);
    for id in [1, 6] {
        name.extend(u16s(&[3, 1, 0x0409, id, text.len() as u16, 0]));
    }
    name.extend(&text);

    let tables: [(&[u8; 4], Vec<u8>); 8] = [
        (b"cmap", cmap),
        (b"glyf", glyf),
        (b"head", head),
        (b"hhea", hhea),
        (b"hmtx", hmtx),
        (b"loca", loca),
        (b"maxp", maxp),
        (b"name", name),
    ];
    let mut file = u32s(&[0x0001_0000]);
    file.extend(u16s(&[tables.len() as u16, 128, 3, 0]));
    let mut offset = 12 + 16 * tables.len();
    for (tag, table) in &tables {
        file.extend(*tag);
        file.extend(u32s(&[0, offset as u32, table.len() as u32]));
        offset += (table.len() + 3) / 4 * 4;
    }
    for (_, table) in &tables {
        file.extend(table);
        while file.len() % 4 != 0 {
            file.push(0);
        }
    }
    file
}

fn f(x: f32) -> Float32 {
    Float32 { bits: x.to_bits() }
}

fn to_f32(x: Float32) -> f32 {
    f32::from_bits(x.bits)
}

fn scale() -> FontScale {
    FontScale {
        scale_factor: f(0.01),
        font_size: f(10.0),
        scale_in_pixels: 10,
        height_in_points: f(6.0),
        y_offset_in_points: f(1.5),
        ascent: f(4.0),
        pixels_per_point: f(2.0),
    }
}

fn measure(scale: FontScale, quantity: Measure) -> Float32 {
    let pixels_per_point = to_f32(scale.pixels_per_point);
    let y_offset = to_f32(scale.y_offset_in_points);
    f(match quantity {
        Measure::Advance { unscaled } => {
            to_f32(scale.scale_factor) * to_f32(unscaled) / pixels_per_point
        }
        Measure::Tab { spaces, space } => spaces as f32 * to_f32(space),
        Measure::ThinSpace { space } => {
            f32::min(to_f32(scale.height_in_points) / 6.0, to_f32(space) * 0.5)
        }
        Measure::OffsetX { pixels } => pixels as f32 / pixels_per_point,
        Measure::OffsetY { pixels } => pixels as f32 / pixels_per_point + y_offset,
        Measure::Length { extent } => extent as f32 / pixels_per_point,
    })
}

type Render = Box<dyn Fn(&cosmic_text::Font, u16, Float32) -> Option<GlyphImage>>;

type Store = FontStore<fn(FontScale, Measure) -> Float32, Render>;

/// Rasterizes with the faces of a font system.
fn render_with(font_system: FontSystem) -> Render {
    let renderer = RefCell::new((font_system, SwashCache::new()));
    Box::new(move |font, glyph_id, font_size| {
        let (font_system, swash_cache) = &mut *renderer.borrow_mut();
        let flags = CacheKeyFlags::empty();
        let (key, ..) = CacheKey::new(font.id(), glyph_id, to_f32(font_size), (0.0, 0.0), flags);
        let image = swash_cache.get_image_uncached(font_system, key)?;
        Some(GlyphImage {
            content: match image.content {
                SwashContent::Mask => ImageContent::Mask,
                SwashContent::SubpixelMask => ImageContent::SubpixelMask,
                SwashContent::Color => ImageContent::Color,
            },
            left: image.placement.left,
            top: image.placement.top,
            width: image.placement.width,
            height: image.placement.height,
            data: image.data,
        })
    })
}

/// A store with one font for each file; the fonts have the numbers 0, 1, and so on.
fn store_of(files: &[(&str, Vec<u8>)]) -> Store {
    store_with(files, TextureAtlas::new(64, 64))
}

fn store_with(files: &[(&str, Vec<u8>)], atlas: TextureAtlas) -> Store {
    let mut db = Database::new();
    let ids: Vec<_> = files
        .iter()
        .map(|(_, file)| db.load_font_source(Source::Binary(Arc::new(file.clone())))[0])
        .collect();
    let mut font_system = FontSystem::new_with_locale_and_db("en-US".to_owned(), db);
    let builtin = vec!["emoji-icon-font".to_owned(), "Hack".to_owned()];
    let fonts: Vec<FontImpl> = files
        .iter()
        .zip(ids)
        .map(|((name, _), id)| {
            let font = font_system.get_font(id).unwrap();
            FontImpl::new((*name).to_owned(), font, scale(), &builtin)
        })
        .collect();
    let mut store: Store = FontStore::new(atlas, measure, render_with(font_system));
    for font in fonts {
        store.insert(font);
    }
    store
}

/// Glyph 1 is a space, 2 is a box of 500 by 700 units, 3 is a smaller box.
fn glyphs() -> Vec<TestGlyph> {
    vec![
        (500, None),
        (250, None),
        (600, Some((500, 700))),
        (400, Some((300, 200))),
    ]
}

fn latin() -> Vec<u8> {
    font_file(&glyphs(), &[(0x20, 1), (0x3F, 3), (0x41, 2)])
}

fn blank() -> GlyphInfo {
    GlyphInfo::default()
}

#[test]
fn glyph_is_measured_and_drawn() {
    let mut store = store_of(&[("Test", latin())]);
    let info = store.glyph_info(0, 'A').unwrap().unwrap();
    // 600 units, a hundredth of a pixel each, two pixels to a point:
    assert_eq!(to_f32(info.advance_width), 3.0);
    // The image is one pixel wider than the box on either side.
    assert_eq!(info.uv_rect.offset, Vec2 { x: f(-0.5), y: f(-3.5 + 1.5) });
    assert_eq!(info.uv_rect.size, Vec2 { x: f(3.5), y: f(3.5) });
    assert_eq!((info.uv_rect.min, info.uv_rect.max), ([0, 0], [7, 7]));
    assert!(!info.uv_rect.is_nothing());
    assert_eq!(store.texture().size(), [64, 7]);
    for y in 0..7 {
        let row: Vec<u8> = (0..9).map(|x| store.texture().pixel(x, y)).collect();
        assert_eq!(row, [0, 255, 255, 255, 255, 255, 0, 0, 0]);
    }
}

#[test]
fn second_glyph_goes_to_the_right_of_the_first() {
    let mut store = store_of(&[("Test", latin())]);
    let first = store.glyph_info(0, 'A').unwrap().unwrap();
    let second = store.glyph_info(0, '?').unwrap().unwrap();
    assert_eq!(to_f32(second.advance_width), 2.0);
    assert_eq!(second.uv_rect.min, [first.uv_rect.max[0] + 1, 0]);
    assert_eq!(store.texture().pixel(1, 0), 255);
}

#[test]
fn space_has_width_but_no_pixels() {
    let mut store = store_of(&[("Test", latin())]);
    let space = store.glyph_info(0, ' ').unwrap().unwrap();
    assert_eq!(to_f32(space.advance_width), 1.25);
    assert!(space.uv_rect.is_nothing());
    assert_eq!(space.uv_rect, UvRect::default());
    assert_eq!(store.texture().size(), [64, 0]);
}

#[test]
fn tab_is_made_of_spaces() {
    assert_eq!(TAB_SIZE, 4);
    let mut store = store_of(&[("Test", latin())]);
    let tab = store.glyph_info(0, '\t').unwrap().unwrap();
    let space = store.glyph_info(0, ' ').unwrap().unwrap();
    assert_eq!(to_f32(tab.advance_width), 5.0);
    assert_eq!(tab.uv_rect, space.uv_rect);
}

#[test]
fn thin_space_is_half_a_space_or_a_sixth_of_an_em() {
    let mut store = store_of(&[("Test", latin())]);
    let thin = store.glyph_info(0, '\u{2009}').unwrap().unwrap();
    assert_eq!(to_f32(thin.advance_width), 0.625);

    // A space of 1250 units is 6.25 points wide, half of it is more than 6 / 6.
    let wide = font_file(&[(500, None), (1250, None)], &[(0x20, 1)]);
    let mut store = store_of(&[("Test", wide)]);
    let thin = store.glyph_info(0, '\u{2009}').unwrap().unwrap();
    assert_eq!(to_f32(thin.advance_width), 1.0);
}

#[test]
fn tab_without_a_space_is_an_ordinary_character() {
    let with_tab = font_file(&glyphs(), &[(0x09, 3)]);
    let without = font_file(&glyphs(), &[(0x41, 2)]);
    let mut store = store_of(&[("Test", with_tab), ("Test", without)]);
    let tab = store.glyph_info(0, '\t').unwrap().unwrap();
    assert_eq!(to_f32(tab.advance_width), 2.0);
    assert_eq!(store.glyph_info(1, '\t'), Ok(None));
    assert_eq!(store.glyph_info(1, '\u{2009}'), Ok(None));
}

#[test]
fn line_break_has_no_glyph() {
    let with_glyph = font_file(&glyphs(), &[(0x0A, 2), (0x3F, 3), (0x41, 2)]);
    let mut store = store_of(&[("a", latin()), ("b", with_glyph)]);
    assert_eq!(store.glyph_info(0, '\n'), Ok(None));
    assert_eq!(store.glyph_info(1, '\n'), Ok(None));
    // It shows up as the replacement character.
    let mut font = Font::new(&mut store, vec![1, 0]).unwrap();
    let question_mark = font.glyph_info(&mut store, '?').unwrap();
    assert_eq!(font.glyph_info(&mut store, '\n'), Ok(question_mark));
    assert_eq!(font.has_glyph(&mut store, '\n'), Ok(false));
}

#[test]
fn invisible_characters_are_blank_even_if_the_font_has_glyphs() {
    let file = font_file(&glyphs(), &[(0x0D, 2), (0x200B, 3)]);
    let mut store = store_of(&[("Hack", file)]);
    for c in ['\r', '\u{200B}', '\u{FEFF}'] {
        assert_eq!(store.glyph_info(0, c), Ok(Some(blank())));
    }
    assert_eq!(store.texture().size(), [64, 0]);
}

#[test]
fn looking_up_again_gives_the_same_and_draws_nothing() {
    let mut store = store_of(&[("Test", latin())]);
    let first = store.glyph_info(0, 'A').unwrap().unwrap();
    let _ = store.glyph_info(0, '?').unwrap().unwrap();
    let size = store.texture().size();
    let again = store.glyph_info(0, 'A').unwrap().unwrap();
    assert_eq!(again, first);
    assert_eq!(store.texture().size(), size);
}

#[test]
fn builtin_fonts_ignore_some_characters() {
    let charmap = [(0x534D, 2), (0x5350, 2), (0xE0FF, 2), (0xF200, 2), (0xFF33, 3), (0xFF3A, 3)];
    let file = font_file(&glyphs(), &charmap);
    let mut store = store_of(&[
        ("Test", file.clone()),
        ("Hack", file.clone()),
        ("emoji-icon-font", file),
    ]);
    for c in ['\u{534D}', '\u{5350}', '\u{E0FF}', '\u{F200}'] {
        assert!(!store.font(0).ignore_character(c));
        assert!(store.glyph_info(0, c).unwrap().is_some());
        for id in [1, 2] {
            assert!(store.font(id).ignore_character(c));
            assert_eq!(store.glyph_info(id, c), Ok(None));
        }
    }
    assert!(store.font(1).ignore_character('\u{EFFD}'));
    assert!(store.font(1).ignore_character('\u{F0FF}'));
    assert!(!store.font(1).ignore_character('\u{FF33}'));
    assert!(store.font(2).ignore_character('\u{FF33}'));
    assert!(store.font(2).ignore_character('\u{FF39}'));
    assert!(!store.font(2).ignore_character('\u{FF32}'));
    assert!(!store.font(2).ignore_character('\u{FF3A}'));
    assert!(store.glyph_info(1, '\u{FF33}').unwrap().is_some());
    assert_eq!(store.glyph_info(2, '\u{FF33}'), Ok(None));
    assert!(store.glyph_info(2, '\u{FF3A}').unwrap().is_some());
}

#[test]
fn listed_characters_leave_out_what_is_ignored() {
    let file = font_file(&glyphs(), &[(0x20, 1), (0x41, 2), (0x5350, 2)]);
    let store = store_of(&[("Test", file.clone()), ("Hack", file)]);
    assert_eq!(store.font(0).characters(), Some(vec![' ', 'A', '\u{5350}']));
    assert_eq!(store.font(1).characters(), Some(vec![' ', 'A']));
}

#[test]
fn a_surrogate_in_the_character_map_is_reported() {
    let file = font_file(&glyphs(), &[(0x41, 2), (0xD800, 2)]);
    let mut store = store_of(&[("Test", file), ("Test", latin())]);
    assert_eq!(store.font(0).characters(), None);
    let mut font = Font::new(&mut store, vec![1, 0]).unwrap();
    assert!(font.characters(&store).is_none());
}

#[test]
fn scale_is_handed_out() {
    let mut store = store_of(&[("Test", latin())]);
    assert_eq!(store.len(), 1);
    assert_eq!(store.font(0).row_height(), f(6.0));
    assert_eq!(store.font(0).pixels_per_point(), f(2.0));
    assert_eq!(store.font(0).ascent(), f(4.0));
    let font = Font::new(&mut store, vec![0]).unwrap();
    assert_eq!(font.row_height(), f(6.0));
    assert_eq!(font.pixels_per_point(), f(2.0));
}

#[test]
fn no_fonts_at_all() {
    let mut store = store_of(&[]);
    let mut font = Font::new(&mut store, vec![]).unwrap();
    assert_eq!(font.row_height(), f(0.0));
    assert_eq!(font.pixels_per_point(), f(1.0));
    assert_eq!(font.glyph_info(&mut store, 'A'), Ok((0, blank())));
    assert_eq!(font.has_glyph(&mut store, 'A'), Ok(false));
    assert!(font.characters(&store).unwrap().is_empty());
    let (font_impl, info) = font.font_impl_and_glyph_info(&mut store, 'A').unwrap();
    assert!(font_impl.is_none());
    assert_eq!(info, blank());
}

fn with_square() -> Vec<u8> {
    font_file(&glyphs(), &[(0x3F, 3), (0x25FB, 2)])
}

#[test]
fn replacement_is_the_square_or_the_question_mark_or_nothing() {
    let plain = font_file(&glyphs(), &[(0x41, 2)]);
    let mut store = store_of(&[("a", latin()), ("b", with_square()), ("c", plain)]);
    // The square of the second font comes before the question mark of the first.
    let mut font = Font::new(&mut store, vec![0, 1]).unwrap();
    let (index, info) = font.glyph_info(&mut store, 'z').unwrap();
    assert_eq!(index, 1);
    assert_eq!(Some(info), store.glyph_info(1, '\u{25FB}').unwrap());

    let mut font = Font::new(&mut store, vec![2, 0]).unwrap();
    let (index, info) = font.glyph_info(&mut store, 'z').unwrap();
    assert_eq!(index, 1);
    assert_eq!(Some(info), store.glyph_info(0, '?').unwrap());

    let mut font = Font::new(&mut store, vec![2]).unwrap();
    assert_eq!(font.glyph_info(&mut store, 'z'), Ok((0, blank())));
}

#[test]
fn the_first_font_with_a_glyph_shows_the_character() {
    let other = font_file(&glyphs(), &[(0x41, 3), (0x42, 3)]);
    let mut store = store_of(&[("a", latin()), ("b", other)]);
    let mut font = Font::new(&mut store, vec![0, 1]).unwrap();
    assert_eq!(font.glyph_info(&mut store, 'A').unwrap().0, 0);
    assert_eq!(font.glyph_info(&mut store, 'B').unwrap().0, 1);
    assert_eq!(font.glyph_width(&mut store, 'A'), Ok(f(3.0)));
    assert_eq!(font.glyph_width(&mut store, 'B'), Ok(f(2.0)));
    let (font_impl, _) = font.font_impl_and_glyph_info(&mut store, 'B').unwrap();
    assert_eq!(font_impl.unwrap().row_height(), f(6.0));

    let mut reversed = Font::new(&mut store, vec![1, 0]).unwrap();
    assert_eq!(reversed.glyph_info(&mut store, 'A').unwrap().0, 0);
    assert_eq!(reversed.glyph_width(&mut store, 'A'), Ok(f(2.0)));
}

#[test]
fn uv_rect_is_nothing_until_the_character_is_looked_up() {
    let mut store = store_of(&[("Test", latin())]);
    let mut font = Font::new(&mut store, vec![0]).unwrap();
    assert!(font.uv_rect('A').is_nothing());
    assert_eq!(font.uv_rect('A'), UvRect::default());
    let (_, info) = font.glyph_info(&mut store, 'A').unwrap();
    assert_eq!(font.uv_rect('A'), info.uv_rect);
    assert!(!font.uv_rect('A').is_nothing());
}

#[test]
fn has_glyph_compares_with_the_replacement() {
    let mut store = store_of(&[("Test", latin())]);
    let mut font = Font::new(&mut store, vec![0]).unwrap();
    assert_eq!(font.has_glyph(&mut store, 'A'), Ok(true));
    assert_eq!(font.has_glyph(&mut store, ' '), Ok(true));
    assert_eq!(font.has_glyph(&mut store, '\t'), Ok(true));
    assert_eq!(font.has_glyph(&mut store, 'z'), Ok(false));
    assert_eq!(font.has_glyph(&mut store, '\n'), Ok(false));
    // The replacement character itself can be displayed:
    assert_eq!(font.has_glyph(&mut store, '?'), Ok(true));
    assert_eq!(font.replacement_character(), Some('?'));
    // That is no reason to say so of the other one:
    assert_eq!(font.has_glyph(&mut store, '\u{25FB}'), Ok(false));
}

#[test]
fn the_square_can_be_displayed_if_a_font_has_it() {
    let mut store = store_of(&[("Test", with_square())]);
    let mut font = Font::new(&mut store, vec![0]).unwrap();
    assert_eq!(font.replacement_character(), Some('\u{25FB}'));
    assert_eq!(font.has_glyph(&mut store, '\u{25FB}'), Ok(true));
    assert_eq!(font.has_glyph(&mut store, '?'), Ok(true));
    assert_eq!(font.has_glyphs(&mut store, "?\u{25FB}?"), Ok(true));
    assert_eq!(font.has_glyphs(&mut store, "?z"), Ok(false));
    assert_eq!(font.has_glyph(&mut store, 'z'), Ok(false));
}

#[test]
fn has_glyphs_stops_at_the_first_replacement() {
    let mut store = store_of(&[("Test", latin())]);
    let mut font = Font::new(&mut store, vec![0]).unwrap();
    assert_eq!(font.has_glyphs(&mut store, ""), Ok(true));
    assert_eq!(font.has_glyphs(&mut store, " \t"), Ok(true));
    assert_eq!(font.has_glyphs(&mut store, "zA"), Ok(false));
    assert!(font.uv_rect('A').is_nothing());
    assert_eq!(font.has_glyphs(&mut store, "A A"), Ok(true));
    assert!(!font.uv_rect('A').is_nothing());
}

#[test]
fn preloaded_characters_are_not_drawn_again() {
    let mut store = store_of(&[("Test", latin())]);
    let mut font = Font::new(&mut store, vec![0]).unwrap();
    assert_eq!(font.preload_characters(&mut store, "A z"), Ok(()));
    let rect = font.uv_rect('A');
    assert!(!rect.is_nothing());
    assert_eq!(font.uv_rect('z'), font.glyph_info(&mut store, '?').unwrap().1.uv_rect);
    let size = store.texture().size();
    assert_eq!(font.glyph_info(&mut store, 'A').unwrap().1.uv_rect, rect);
    assert_eq!(store.texture().size(), size);
}

#[test]
fn common_characters_are_printable_ascii_degree_and_bullet() {
    let file = font_file(&glyphs(), &[(0x1F, 2), (0x20, 2), (0x7E, 2), (0x7F, 2), (0xB0, 2), (0x2022, 2)]);
    let mut store = store_of(&[("Test", file)]);
    let mut font = Font::new(&mut store, vec![0]).unwrap();
    assert_eq!(font.preload_common_characters(&mut store), Ok(()));
    for c in [' ', '~', '\u{B0}', '\u{2022}'] {
        assert!(!font.uv_rect(c).is_nothing());
    }
    for c in ['\u{1F}', '\u{7F}'] {
        assert!(font.uv_rect(c).is_nothing());
    }
}

#[test]
fn characters_of_all_fonts_are_collected() {
    let other = font_file(&glyphs(), &[(0x41, 3), (0x1F600, 3)]);
    let mut store = store_of(&[("a", latin()), ("b", other)]);
    let mut font = Font::new(&mut store, vec![0, 1]).unwrap();
    let all: Vec<u32> = font.characters(&store).unwrap().iter().copied().collect();
    assert_eq!(all, [0x20, 0x3F, 0x41, 0x1F600]);
    assert_eq!(font.characters(&store).unwrap().len(), 4);
}

#[test]
fn fonts_share_what_has_been_drawn() {
    let mut store = store_of(&[("Test", latin())]);
    let mut one = Font::new(&mut store, vec![0]).unwrap();
    let mut two = Font::new(&mut store, vec![0]).unwrap();
    let first = one.glyph_info(&mut store, 'A').unwrap();
    let size = store.texture().size();
    assert_eq!(two.glyph_info(&mut store, 'A'), Ok(first));
    assert_eq!(store.texture().size(), size);
}

#[test]
fn a_glyph_that_does_not_fit_is_an_error() {
    let mut store = store_with(&[("Test", latin())], TextureAtlas::new(6, 64));
    assert_eq!(store.glyph_info(0, 'A'), Err(GlyphError::TooLarge));
    let mut font = Font::new(&mut store, vec![0]).unwrap();
    assert_eq!(font.glyph_info(&mut store, 'A'), Err(GlyphError::TooLarge));
    assert_eq!(font.preload_characters(&mut store, " A?"), Err(GlyphError::TooLarge));
    assert_eq!(font.has_glyphs(&mut store, " A"), Err(GlyphError::TooLarge));
    assert_eq!(font.has_glyph(&mut store, ' '), Ok(true));
}

#[test]
fn a_tab_is_as_wide_as_its_spaces_in_either_order() {
    let mut store = store_of(&[("Test", latin()), ("Test", latin())]);
    let space = store.glyph_info(0, ' ').unwrap().unwrap();
    let tab = store.glyph_info(0, '\t').unwrap().unwrap();
    let tab_first = store.glyph_info(1, '\t').unwrap().unwrap();
    let space_second = store.glyph_info(1, ' ').unwrap().unwrap();
    assert_eq!((space, tab), (space_second, tab_first));
    assert_eq!(to_f32(tab.advance_width), 4.0 * to_f32(space.advance_width));
    assert_eq!(store.glyph_info(0, '\t'), Ok(Some(tab)));
    let mut font = Font::new(&mut store, vec![0, 1]).unwrap();
    assert_eq!(font.glyph_width(&mut store, '\t'), Ok(f(5.0)));
    assert_eq!(font.glyph_width(&mut store, ' '), Ok(f(1.25)));
}

#[test]
fn preloading_changes_no_answer() {
    let mut plain_store = store_of(&[("a", latin()), ("b", with_square())]);
    let mut plain = Font::new(&mut plain_store, vec![0, 1]).unwrap();
    let mut store = store_of(&[("a", latin()), ("b", with_square())]);
    let mut font = Font::new(&mut store, vec![0, 1]).unwrap();
    font.preload_characters(&mut store, "?\tzA\n").unwrap();
    font.preload_common_characters(&mut store).unwrap();
    for c in ['A', 'z', ' ', '\t', '\n', '?', '\u{25FB}', '\u{200B}'] {
        let (index, info) = font.glyph_info(&mut store, c).unwrap();
        let (plain_index, plain_info) = plain.glyph_info(&mut plain_store, c).unwrap();
        assert_eq!((index, info.advance_width), (plain_index, plain_info.advance_width));
    }
    assert_eq!(font.characters(&store), plain.characters(&plain_store));
}

#[test]
fn cached_rectangles_are_as_large_as_they_say() {
    let mut store = store_of(&[("Test", latin())]);
    let mut font = Font::new(&mut store, vec![0]).unwrap();
    for c in ['A', '?', ' ', '\t', 'z', 'A'] {
        let rect = font.glyph_info(&mut store, c).unwrap().1.uv_rect;
        assert!(rect.min[0] <= rect.max[0] && rect.min[1] <= rect.max[1]);
        assert_eq!(rect.is_nothing(), rect == UvRect::default());
        assert_eq!(to_f32(rect.size.x), (rect.max[0] - rect.min[0]) as f32 / 2.0);
        assert_eq!(to_f32(rect.size.y), (rect.max[1] - rect.min[1]) as f32 / 2.0);
    }
}

/// The place of a table in a test font.
fn table_start(file: &[u8], tag: &[u8; 4]) -> usize {
    let record = (0..8).map(|i| 12 + 16 * i).find(|at| &file[*at..*at + 4] == tag).unwrap();
    u32::from_be_bytes(file[record + 8..record + 12].try_into().unwrap()) as usize
}

fn load(file: Vec<u8>) -> (FontSystem, Arc<cosmic_text::Font>) {
    let mut db = Database::new();
    let id = db.load_font_source(Source::Binary(Arc::new(file)))[0];
    let mut font_system = FontSystem::new_with_locale_and_db("en-US".to_owned(), db);
    let font = font_system.get_font(id).unwrap();
    (font_system, font)
}

/// A store with one font and a function that rasterizes it.
fn store_rendering(file: Vec<u8>, render: Render) -> Store {
    let font = FontImpl::new("Test".to_owned(), load(file).1, scale(), &Vec::new());
    let mut store: Store = FontStore::new(TextureAtlas::new(64, 64), measure, render);
    store.insert(font);
    store
}

#[test]
fn glyph_numbers_that_do_not_fit_are_an_error() {
    let charmap = [(0x20, 1), (0x41, 2), (0x42, 0xFFFF_FFFF), (0x43, 0xFFFF_FFFE)];
    let mut store = store_of(&[("Test", font_file(&glyphs(), &charmap))]);
    assert!(store.glyph_info(0, 'A').unwrap().is_some());
    assert_eq!(store.glyph_info(0, 'z'), Ok(None));
    // One code point by itself maps without a sum, but cannot be listed.
    assert!(store.glyph_info(0, 'B').unwrap().is_some());
    assert_eq!(store.font(0).characters(), None);

    // A group of two code points, the second of which does not fit.
    let mut file = font_file(&glyphs(), &[(0x42, 0xFFFF_FFFF), (0x50, 1)]);
    let group = table_start(&file, b"cmap") + 12 + 16;
    file[group + 7] = 0x43;
    let mut store = store_of(&[("Test", file)]);
    assert_eq!(store.glyph_info(0, 'C'), Err(GlyphError::MalformedFont));
    assert_eq!(store.texture().size(), [64, 0]);
    let mut font = Font::new(&mut store, vec![0]).unwrap();
    assert_eq!(font.glyph_info(&mut store, 'C'), Err(GlyphError::MalformedFont));
    assert_eq!(font.has_glyph(&mut store, 'P'), Ok(true));
}

#[test]
fn a_font_without_metrics_shows_what_needs_none() {
    let mut file = latin();
    let hhea = table_start(&file, b"hhea");
    file[hhea + 34..hhea + 36].fill(0);
    let mut store = store_of(&[("Test", file)]);
    assert_eq!(store.glyph_info(0, 'A'), Err(GlyphError::MalformedFont));
    assert_eq!(store.glyph_info(0, '\t'), Err(GlyphError::MalformedFont));
    assert_eq!(store.glyph_info(0, '\r'), Ok(Some(blank())));
    assert_eq!(store.glyph_info(0, '\n'), Ok(None));
    assert_eq!(store.glyph_info(0, 'z'), Ok(None));
    assert_eq!(store.font(0).characters(), Some(vec![' ', '?', 'A']));
    // The replacement character of the font cannot be shown.
    assert!(matches!(Font::new(&mut store, vec![0]), Err(GlyphError::MalformedFont)));

    // A descender that cannot be negated.
    let mut file = latin();
    file[hhea + 6..hhea + 8].copy_from_slice(&[0x80, 0]);
    let mut store = store_of(&[("Test", file)]);
    assert_eq!(store.glyph_info(0, 'A'), Err(GlyphError::MalformedFont));
}

#[test]
fn the_rasterizer_is_asked_for_the_glyph_at_the_size_of_the_font() {
    let render: Render = Box::new(|_, glyph_id, font_size| {
        assert_eq!((glyph_id, to_f32(font_size)), (2, 10.0));
        Some(GlyphImage {
            content: ImageContent::Mask,
            left: 3,
            top: 5,
            width: 2,
            height: 1,
            data: vec![7, 9],
        })
    });
    let mut store = store_rendering(latin(), render);
    let rect = store.glyph_info(0, 'A').unwrap().unwrap().uv_rect;
    assert_eq!(rect.offset, Vec2 { x: f(1.5), y: f(-2.5 + 1.5) });
    assert_eq!(rect.size, Vec2 { x: f(1.0), y: f(0.5) });
    assert_eq!((rect.min, rect.max), ([0, 0], [2, 1]));
    assert_eq!((store.texture().pixel(0, 0), store.texture().pixel(1, 0)), (7, 9));
}

#[test]
fn images_that_cannot_be_drawn_are_errors() {
    let reply = |content: ImageContent, top: i32, bytes: usize| -> Render {
        Box::new(move |_, _, _| {
            Some(GlyphImage { content, left: 0, top, width: 2, height: 2, data: vec![1; bytes] })
        })
    };
    for (render, error) in [
        (reply(ImageContent::Color, 0, 16), GlyphError::Colored),
        (reply(ImageContent::SubpixelMask, 0, 16), GlyphError::SubpixelMask),
        (reply(ImageContent::Mask, 0, 3), GlyphError::MissingPixels),
        (reply(ImageContent::Mask, i32::MIN, 4), GlyphError::OffsetOutOfRange),
    ] {
        let mut store = store_rendering(latin(), render);
        assert_eq!(store.glyph_info(0, 'A'), Err(error));
        assert_eq!(store.texture().size(), [64, 0]);
    }
}

#[test]
fn a_glyph_without_an_image_has_a_width() {
    let mut store = store_rendering(latin(), Box::new(|_, _, _| None));
    let info = store.glyph_info(0, 'A').unwrap().unwrap();
    assert_eq!(to_f32(info.advance_width), 3.0);
    assert_eq!(info.uv_rect, UvRect::default());
}

#[test]
fn what_is_ignored_depends_on_the_name_alone() {
    let files = [("Hack", latin()), ("Hack", with_square())];
    let mut store = store_of(&files);
    store.glyph_info(0, 'A').unwrap();
    for c in ['A', '\u{534D}', '\u{E0FF}', '\u{FF33}', '\u{200B}', '\r'] {
        let ignored = store.font(0).ignore_character(c);
        assert_eq!(store.font(1).ignore_character(c), ignored);
        assert!(!(ignored && epaint_font::character::invisible_char(c)));
    }
}
