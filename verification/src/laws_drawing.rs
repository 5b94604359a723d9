//! What drawing a glyph does, said of what goes in and of what comes out: of the bytes of
//! an image, of the pixels of the texture before and after, and of the corners of the
//! rectangle.

use crate::atlas::{AtlasView, TextureAtlas};
use crate::glyph::{GlyphError, GlyphImage, GlyphInfo, ImageContent, ImageView, UvRect};
use crate::measure::{FontScale, Measure};
use crate::number::Float32;
use crate::placement::{drawable, glyph_placed, obstacle, place_glyph};
use vstd::prelude::*;

verus! {

/// A new texture has the width that was asked for, no rows, and no glyphs.
pub proof fn law_new_texture(width: usize, max_height: usize, atlas: TextureAtlas)
    requires
        call_ensures(TextureAtlas::new, (width, max_height), atlas),
    ensures
        atlas@.width == width,
        atlas@.max_height == max_height,
        atlas@.height == 0,
        atlas@.cursor_x == 0,
        atlas@.cursor_y == 0,
        atlas@.row_height == 0,
        !atlas@.overflowed,
{
}

/// What is read of a texture is what is there: its width and height, the coverage of its
/// pixels, nothing outside of it, and whether it has started over.
pub proof fn law_texture_is_read(
    atlas: TextureAtlas,
    size: [usize; 2],
    x: usize,
    y: usize,
    coverage: u8,
    overflowed: bool,
)
    requires
        call_ensures(TextureAtlas::size, (&atlas,), size),
        call_ensures(TextureAtlas::pixel, (&atlas, x, y), coverage),
        call_ensures(TextureAtlas::overflowed, (&atlas,), overflowed),
    ensures
        size@[0] == atlas@.width,
        size@[1] == atlas@.height,
        x < atlas@.width && y < atlas@.height ==> coverage == (atlas@.pixels)(x as int, y as int),
        x >= atlas@.width || y >= atlas@.height ==> coverage == 0,
        overflowed == atlas@.overflowed,
{
}

/// A rectangle as wide as the texture at most, and two thirds of its greatest height high
/// at most, fits. One that is wider or higher than the texture can be does not.
pub proof fn law_what_fits(atlas: TextureAtlas, w: usize, h: usize, fits: bool)
    requires
        call_ensures(TextureAtlas::fits, (&atlas, w, h), fits),
    ensures
        w <= atlas@.width && 3 * h <= 2 * atlas@.max_height ==> fits,
        w > atlas@.width || h > atlas@.max_height ==> !fits,
        fits <==> atlas@.fits(w as nat, h as nat),
        fits <==> w <= atlas@.width && {
            ||| atlas@.max_height / 3 + h <= atlas@.max_height
            ||| atlas@.cursor_x + w > atlas@.width && atlas@.cursor_y + atlas@.row_height + 1 + h
                <= atlas@.max_height
            ||| atlas@.cursor_x + w <= atlas@.width && atlas@.cursor_y + h <= atlas@.max_height
                && atlas@.cursor_y + atlas@.row_height <= atlas@.max_height
        },
{
}

/// A rectangle is placed inside of the texture. No pixel changes, and rows are only added,
/// empty ones, and no more than the texture may have. It starts over only if the rectangle
/// does not fit under all that has been placed.
pub proof fn law_allocated_place(
    atlas: &mut TextureAtlas,
    w: usize,
    h: usize,
    pos: (usize, usize),
)
    requires
        call_ensures(TextureAtlas::allocate, (atlas, w, h), pos),
        old(atlas)@.width >= w,
        old(atlas)@.height <= old(atlas)@.max_height,
        old(atlas)@.cursor_y + old(atlas)@.row_height <= old(atlas)@.max_height,
        old(atlas)@.fits(w as nat, h as nat),
    ensures
        final(atlas)@.width == old(atlas)@.width,
        final(atlas)@.max_height == old(atlas)@.max_height,
        old(atlas)@.height <= final(atlas)@.height <= old(atlas)@.max_height,
        pos.0 + w <= final(atlas)@.width,
        pos.1 + h <= final(atlas)@.height,
        forall|x: int, y: int|
            0 <= x < old(atlas)@.width && 0 <= y < old(atlas)@.height ==> #[trigger] (final(atlas)@.pixels)(x, y) == (old(atlas)@.pixels)(x, y),
        forall|x: int, y: int|
            0 <= x < old(atlas)@.width && old(atlas)@.height <= y < final(atlas)@.height
                ==> #[trigger] (final(atlas)@.pixels)(x, y) == 0,
        old(atlas)@.overflowed ==> final(atlas)@.overflowed,
        final(atlas)@.overflowed && !old(atlas)@.overflowed ==> old(atlas)@.cursor_y + old(atlas)@.row_height + 1 + h > old(atlas)@.max_height,
{
    let (before, after) = (old(atlas)@, final(atlas)@);
    assert forall|x: int, y: int| 0 <= x < before.width && 0 <= y < after.height implies #[trigger] (
    after.pixels)(x, y) == before.coverage(x, y) by {
        assert(after.coverage(x, y) == before.coverage(x, y));
    }
}

/// A rectangle goes to the right of the last one, with one empty column between them, if the
/// row has room; otherwise into a new row, under one empty line; and if that would be too
/// low, the texture starts over at a third of its greatest height. The texture is no higher
/// than is needed.
pub proof fn law_place_of_rectangle(
    atlas: &mut TextureAtlas,
    w: usize,
    h: usize,
    pos: (usize, usize),
)
    requires
        call_ensures(TextureAtlas::allocate, (atlas, w, h), pos),
        w <= old(atlas)@.width,
    ensures
        ({
            let before = old(atlas)@;
            let after = final(atlas)@;
            let in_row = before.cursor_x + w <= before.width;
            let low = if in_row {
                before.cursor_y + (if before.row_height > h {
                    before.row_height as int
                } else {
                    h as int
                })
            } else {
                before.cursor_y + before.row_height + 1 + h
            };
            let bottom = if low <= before.max_height {
                low
            } else {
                before.max_height / 3 + h
            };
            &&& in_row && low <= before.max_height ==> pos.0 == before.cursor_x && pos.1
                == before.cursor_y
            &&& !in_row && low <= before.max_height ==> pos.0 == 0 && pos.1 == before.cursor_y
                + before.row_height + 1
            &&& low > before.max_height ==> pos.0 == 0 && pos.1 == before.max_height / 3
            &&& after.overflowed <==> before.overflowed || low > before.max_height
            &&& after.cursor_x == pos.0 + w + 1
            &&& after.cursor_y == pos.1
            &&& after.cursor_y + after.row_height == bottom
            &&& after.height == (if bottom > before.height {
                bottom
            } else {
                before.height as int
            })
        }),
{
}

/// An image is drawn byte by byte: the byte in the column `dx` and the row `dy` becomes the
/// coverage of the pixel that far from the corner, and no other pixel changes.
pub proof fn law_drawn_mask(
    atlas: &mut TextureAtlas,
    pos: (usize, usize),
    w: usize,
    h: usize,
    data: Vec<u8>,
)
    requires
        call_ensures(TextureAtlas::draw_mask, (atlas, pos, w, h, &data), ()),
        pos.0 + w <= old(atlas)@.width,
        pos.1 + h <= old(atlas)@.height,
    ensures
        final(atlas)@.width == old(atlas)@.width,
        final(atlas)@.height == old(atlas)@.height,
        forall|dx: int, dy: int|
            0 <= dx < w && 0 <= dy < h ==> #[trigger] (final(atlas)@.pixels)(
                pos.0 + dx,
                pos.1 + dy,
            ) == data@[dy * w + dx],
        forall|x: int, y: int|
            0 <= x < old(atlas)@.width && 0 <= y < old(atlas)@.height && !(pos.0 <= x < pos.0 + w
                && pos.1 <= y < pos.1 + h) ==> #[trigger] (final(atlas)@.pixels)(x, y) == (old(atlas)@.pixels)(x, y),
{
    let (before, after) = (old(atlas)@, final(atlas)@);
    assert forall|dx: int, dy: int| 0 <= dx < w && 0 <= dy < h implies #[trigger] (after.pixels)(
        pos.0 + dx,
        pos.1 + dy,
    ) == data@[dy * w + dx] by {
        assert(after.coverage(pos.0 + dx, pos.1 + dy) == data@[dy * w + dx]);
    }
    assert forall|x: int, y: int|
        0 <= x < before.width && 0 <= y < before.height && !(pos.0 <= x < pos.0 + w && pos.1 <= y
            < pos.1 + h) implies #[trigger] (after.pixels)(x, y) == (before.pixels)(x, y) by {
        assert(after.coverage(x, y) == before.coverage(x, y));
    }
}

/// All numbers of the rectangle are zero.
pub open spec fn all_zero(rect: UvRect) -> bool {
    &&& rect.offset.x.bits == 0 && rect.offset.y.bits == 0
    &&& rect.size.x.bits == 0 && rect.size.y.bits == 0
    &&& rect.min@[0] == 0 && rect.min@[1] == 0
    &&& rect.max@[0] == 0 && rect.max@[1] == 0
}

/// The picture as it came from the rasterizer.
pub open spec fn picture(image: GlyphImage) -> ImageView {
    ImageView {
        content: image.content,
        left: image.left,
        top: image.top,
        width: image.width,
        height: image.height,
        data: image.data@,
    }
}

/// The rectangle is the place in the texture where the image is: it is as large as the
/// image, lies inside of the texture, and the texture holds the bytes of the image there.
/// Its offset and its size are worked out from the edges of the image.
pub open spec fn shows_image<F: Fn(FontScale, Measure) -> Float32>(
    measure: F,
    scale: FontScale,
    image: ImageView,
    atlas: AtlasView,
    rect: UvRect,
) -> bool {
    let (left, top) = (rect.min@[0] as int, rect.min@[1] as int);
    &&& rect.max@[0] - left == image.width
    &&& rect.max@[1] - top == image.height
    &&& left + image.width <= atlas.width
    &&& top + image.height <= atlas.height
    &&& forall|dx: int, dy: int|
        0 <= dx < image.width && 0 <= dy < image.height ==> #[trigger] (atlas.pixels)(
            left + dx,
            top + dy,
        ) == image.data[dy * image.width + dx]
    &&& call_ensures(measure, (scale, Measure::OffsetX { pixels: image.left }), rect.offset.x)
    &&& call_ensures(
        measure,
        (scale, Measure::OffsetY { pixels: (0 - image.top) as i32 }),
        rect.offset.y,
    )
    &&& call_ensures(measure, (scale, Measure::Length { extent: image.width }), rect.size.x)
    &&& call_ensures(measure, (scale, Measure::Length { extent: image.height }), rect.size.y)
}

/// A glyph that has an image is drawn where its rectangle says, and nowhere else: the
/// rectangle shows the image, and all other pixels are as before. It is as wide as is
/// worked out from its advance width.
pub proof fn law_glyph_is_where_it_is_drawn<F: Fn(FontScale, Measure) -> Float32>(
    measure: F,
    scale: FontScale,
    unscaled: Float32,
    image: GlyphImage,
    atlas: &mut TextureAtlas,
    info: GlyphInfo,
)
    requires
        call_ensures(
            place_glyph::<F>,
            (&measure, scale, unscaled, Some(image), atlas),
            Ok::<_, GlyphError>(info),
        ),
        image.width > 0,
        image.height > 0,
        final(atlas)@.width <= u16::MAX,
        final(atlas)@.height <= u16::MAX,
    ensures
        call_ensures(measure, (scale, Measure::Advance { unscaled }), info.advance_width),
        shows_image(measure, scale, picture(image), final(atlas)@, info.uv_rect),
        forall|x: int, y: int|
            0 <= x < old(atlas)@.width && 0 <= y < old(atlas)@.height && !(info.uv_rect.min@[0] <= x
                < info.uv_rect.max@[0] && info.uv_rect.min@[1] <= y < info.uv_rect.max@[1])
                ==> #[trigger] (final(atlas)@.pixels)(x, y) == (old(atlas)@.pixels)(x, y),
        final(atlas)@.width == old(atlas)@.width,
        final(atlas)@.height >= old(atlas)@.height,
{
    let (before, after) = (old(atlas)@, final(atlas)@);
    lemma_placed_image(measure, scale, unscaled, picture(image), before, after, info);
}

/// What was said of drawing holds of every glyph that has been placed.
pub proof fn lemma_placed_image<F: Fn(FontScale, Measure) -> Float32>(
    measure: F,
    scale: FontScale,
    unscaled: Float32,
    image: ImageView,
    before: AtlasView,
    after: AtlasView,
    info: GlyphInfo,
)
    requires
        glyph_placed(measure, scale, unscaled, Some(image), before, after, info),
        obstacle(Some(image), before) is None,
        image.width > 0,
        image.height > 0,
        after.width <= u16::MAX,
        after.height <= u16::MAX,
    ensures
        call_ensures(measure, (scale, Measure::Advance { unscaled }), info.advance_width),
        shows_image(measure, scale, image, after, info.uv_rect),
        forall|x: int, y: int|
            0 <= x < before.width && 0 <= y < before.height && !(info.uv_rect.min@[0] <= x
                < info.uv_rect.max@[0] && info.uv_rect.min@[1] <= y < info.uv_rect.max@[1])
                ==> #[trigger] (after.pixels)(x, y) == (before.pixels)(x, y),
        after.width == before.width,
        after.height >= before.height,
{
    let rect = info.uv_rect;
    let (w, h) = (image.width as nat, image.height as nat);
    let pos = before.position(w, h);
    assert(drawable(Some(image)) == Some(image));
    assert(pos.0 + w <= before.width);
    assert(pos.1 + h <= after.height);
    assert(rect.min@[0] == pos.0 && rect.min@[1] == pos.1);
    assert(rect.max@[0] == pos.0 + w && rect.max@[1] == pos.1 + h);
    assert forall|dx: int, dy: int| 0 <= dx < w && 0 <= dy < h implies #[trigger] (after.pixels)(
        rect.min@[0] + dx,
        rect.min@[1] + dy,
    ) == image.data[dy * w + dx] by {
        assert(after.coverage(pos.0 + dx, pos.1 + dy) == image.data[dy * w + dx]);
    }
    assert forall|x: int, y: int|
        0 <= x < before.width && 0 <= y < before.height && !(rect.min@[0] <= x < rect.max@[0]
            && rect.min@[1] <= y < rect.max@[1]) implies #[trigger] (after.pixels)(x, y) == (
    before.pixels)(x, y) by {
        assert(after.coverage(x, y) == before.coverage(x, y));
    }
}

/// A glyph is as wide as is worked out from its advance width in font units. Its picture is
/// in the texture where its rectangle says, as far as 16 bits can say it, and nothing else
/// has changed there. If there is no picture, or one without pixels, the rectangle is zero
/// throughout, and the texture is as before.
pub open spec fn drawn<F: Fn(FontScale, Measure) -> Float32>(
    measure: F,
    scale: FontScale,
    unscaled: u32,
    reply: Option<ImageView>,
    before: AtlasView,
    after: AtlasView,
    info: GlyphInfo,
) -> bool {
    &&& call_ensures(
        measure,
        (scale, Measure::Advance { unscaled: Float32 { bits: unscaled } }),
        info.advance_width,
    )
    &&& match reply {
        Some(image) => if image.width > 0 && image.height > 0 {
            after.width <= u16::MAX && after.height <= u16::MAX ==> {
                &&& shows_image(measure, scale, image, after, info.uv_rect)
                &&& after.width == before.width
                &&& after.height >= before.height
                &&& forall|x: int, y: int|
                    0 <= x < before.width && 0 <= y < before.height && !(info.uv_rect.min@[0] <= x
                        < info.uv_rect.max@[0] && info.uv_rect.min@[1] <= y
                        < info.uv_rect.max@[1]) ==> #[trigger] (after.pixels)(x, y) == (
                    before.pixels)(x, y)
            }
        } else {
            all_zero(info.uv_rect) && after == before
        },
        None => all_zero(info.uv_rect) && after == before,
    }
}

/// An image that cannot be drawn: it has pixels, and colors or a mask for parts of pixels;
/// or it has fewer bytes than pixels; or its top edge has no opposite; or it is too large
/// for what the texture has room for at the worst.
pub open spec fn cannot_be_drawn(reply: Option<ImageView>, atlas: AtlasView) -> bool {
    reply matches Some(image) && image.width > 0 && image.height > 0 && (image.content
        != ImageContent::Mask || image.data.len() < image.width * image.height || image.top
        == i32::MIN || image.width > atlas.width || 3 * image.height > 2 * atlas.max_height)
}

/// A glyph that has been placed is drawn.
pub proof fn lemma_drawn<F: Fn(FontScale, Measure) -> Float32>(
    measure: F,
    scale: FontScale,
    unscaled: u32,
    reply: Option<ImageView>,
    before: AtlasView,
    after: AtlasView,
    info: GlyphInfo,
)
    requires
        glyph_placed(measure, scale, Float32 { bits: unscaled }, reply, before, after, info),
        obstacle(reply, before) is None,
    ensures
        drawn(measure, scale, unscaled, reply, before, after, info),
{
    if let Some(image) = reply {
        if image.width > 0 && image.height > 0 && after.width <= u16::MAX && after.height
            <= u16::MAX {
            lemma_placed_image(
                measure,
                scale,
                Float32 { bits: unscaled },
                image,
                before,
                after,
                info,
            );
        }
    }
}

/// A glyph without an image, or with one that has no pixels, is never refused. Nothing is
/// drawn, and its rectangle is zero throughout; it has its width all the same.
pub proof fn law_glyph_without_pixels<F: Fn(FontScale, Measure) -> Float32>(
    measure: F,
    scale: FontScale,
    unscaled: Float32,
    reply: Option<GlyphImage>,
    atlas: &mut TextureAtlas,
    result: Result<GlyphInfo, GlyphError>,
)
    requires
        call_ensures(place_glyph::<F>, (&measure, scale, unscaled, reply, atlas), result),
        reply matches Some(image) ==> image.width == 0 || image.height == 0,
    ensures
        result matches Ok(info) && all_zero(info.uv_rect) && call_ensures(
            measure,
            (scale, Measure::Advance { unscaled }),
            info.advance_width,
        ),
        final(atlas)@ == old(atlas)@,
{
    assert(drawable(crate::glyph::reply_view(reply)) is None);
}

/// An image with pixels is refused if it has colors or a mask for parts of pixels, if it
/// has fewer bytes than pixels, if its top edge has no opposite, or if it is too large; and
/// for no other reason. Then nothing is drawn.
pub proof fn law_refused_images<F: Fn(FontScale, Measure) -> Float32>(
    measure: F,
    scale: FontScale,
    unscaled: Float32,
    image: GlyphImage,
    atlas: &mut TextureAtlas,
    result: Result<GlyphInfo, GlyphError>,
)
    requires
        call_ensures(place_glyph::<F>, (&measure, scale, unscaled, Some(image), atlas), result),
        image.width > 0,
        image.height > 0,
    ensures
        result is Err ==> final(atlas)@ == old(atlas)@,
        result is Ok ==> image.content == ImageContent::Mask,
        result is Ok ==> image.data@.len() >= image.width * image.height,
        image.width > old(atlas)@.width || image.height > old(atlas)@.max_height ==> result
            == Err::<GlyphInfo, _>(GlyphError::TooLarge),
        image.width <= old(atlas)@.width && 3 * image.height <= 2 * old(atlas)@.max_height ==> {
            &&& result == Err::<GlyphInfo, _>(GlyphError::Colored) <==> image.content
                == ImageContent::Color
            &&& result == Err::<GlyphInfo, _>(GlyphError::SubpixelMask) <==> image.content
                == ImageContent::SubpixelMask
            &&& result == Err::<GlyphInfo, _>(GlyphError::MissingPixels) <==> image.content
                == ImageContent::Mask && image.data@.len() < image.width * image.height
            &&& result == Err::<GlyphInfo, _>(GlyphError::OffsetOutOfRange) <==> image.content
                == ImageContent::Mask && image.data@.len() >= image.width * image.height
                && image.top == i32::MIN
            &&& result is Ok <==> image.content == ImageContent::Mask && image.data@.len()
                >= image.width * image.height && image.top != i32::MIN
        },
        result == Err::<GlyphInfo, _>(GlyphError::TooLarge) <==> !old(atlas)@.fits(
            image.width as nat,
            image.height as nat,
        ),
        result != Err::<GlyphInfo, _>(GlyphError::MalformedFont),
{
    assert(drawable(crate::glyph::reply_view(Some(image))) == Some(image@));
}

/// Two glyphs that are drawn one after the other do not touch, as long as the texture does
/// not start over: there is at least one pixel between them, and the first stays as it is.
pub proof fn law_glyphs_do_not_touch<F: Fn(FontScale, Measure) -> Float32>(
    measure: F,
    first_scale: FontScale,
    first_unscaled: Float32,
    first_image: GlyphImage,
    first_atlas: &mut TextureAtlas,
    first: GlyphInfo,
    second_scale: FontScale,
    second_unscaled: Float32,
    second_image: GlyphImage,
    second_atlas: &mut TextureAtlas,
    second: GlyphInfo,
)
    requires
        call_ensures(
            place_glyph::<F>,
            (&measure, first_scale, first_unscaled, Some(first_image), first_atlas),
            Ok::<_, GlyphError>(first),
        ),
        old(second_atlas)@ == final(first_atlas)@,
        call_ensures(
            place_glyph::<F>,
            (&measure, second_scale, second_unscaled, Some(second_image), second_atlas),
            Ok::<_, GlyphError>(second),
        ),
        first_image.width > 0,
        first_image.height > 0,
        second_image.width > 0,
        second_image.height > 0,
        final(second_atlas)@.width <= u16::MAX,
        final(second_atlas)@.height <= u16::MAX,
        !final(second_atlas)@.overflowed,
    ensures
        ({
            let (a, b) = (first.uv_rect, second.uv_rect);
            ||| a.max@[0] < b.min@[0] || b.max@[0] < a.min@[0]
            ||| a.max@[1] < b.min@[1] || b.max@[1] < a.min@[1]
        }),
        shows_image(measure, first_scale, picture(first_image), final(second_atlas)@, first.uv_rect),
{
    let (before, middle, after) = (
        old(first_atlas)@,
        final(first_atlas)@,
        final(second_atlas)@,
    );
    lemma_placed_image(
        measure,
        second_scale,
        second_unscaled,
        picture(second_image),
        middle,
        after,
        second,
    );
    lemma_placed_image(
        measure,
        first_scale,
        first_unscaled,
        picture(first_image),
        before,
        middle,
        first,
    );
    let (w1, h1) = (first_image.width as nat, first_image.height as nat);
    let (w2, h2) = (second_image.width as nat, second_image.height as nat);
    assert(middle.has_room(w2, h2) && before.has_room(w1, h1));
    let (p1, p2) = (before.position(w1, h1), middle.position(w2, h2));
    assert(first.uv_rect.min@[0] == p1.0 && first.uv_rect.min@[1] == p1.1);
    assert(second.uv_rect.min@[0] == p2.0 && second.uv_rect.min@[1] == p2.1);
    assert(p1.0 + w1 < p2.0 || p1.1 + h1 < p2.1);
    assert forall|dx: int, dy: int| 0 <= dx < w1 && 0 <= dy < h1 implies #[trigger] (after.pixels)(
        first.uv_rect.min@[0] + dx,
        first.uv_rect.min@[1] + dy,
    ) == first_image.data@[dy * w1 + dx] by {
        assert((middle.pixels)(first.uv_rect.min@[0] + dx, first.uv_rect.min@[1] + dy)
            == first_image.data@[dy * w1 + dx]);
    }
}

/// However many glyphs are drawn one after the other, no two of them overlap, as long as
/// the texture does not start over, and each of them is still where it was drawn.
pub proof fn law_no_two_glyphs_overlap<F: Fn(FontScale, Measure) -> Float32>(
    measure: F,
    scales: Seq<FontScale>,
    unscaled: Seq<Float32>,
    images: Seq<GlyphImage>,
    textures: Seq<AtlasView>,
    infos: Seq<GlyphInfo>,
    i: int,
    j: int,
)
    requires
        0 <= i < j < images.len(),
        textures.len() == images.len() + 1,
        forall|k: int| #![trigger images[k]]
            0 <= k < images.len() ==> {
                &&& images[k].width > 0
                &&& images[k].height > 0
                &&& obstacle(Some(images[k]@), textures[k]) is None
                &&& glyph_placed(
                    measure,
                    scales[k],
                    unscaled[k],
                    Some(images[k]@),
                    textures[k],
                    textures[k + 1],
                    infos[k],
                )
            },
        !textures.last().overflowed,
        textures.last().width <= u16::MAX,
        textures.last().height <= u16::MAX,
    ensures
        ({
            let (a, b) = (infos[i].uv_rect, infos[j].uv_rect);
            ||| a.max@[0] <= b.min@[0] || b.max@[0] <= a.min@[0]
            ||| a.max@[1] <= b.min@[1] || b.max@[1] <= a.min@[1]
        }),
        shows_image(measure, scales[i], picture(images[i]), textures.last(), infos[i].uv_rect),
{
    lemma_never_started_over(measure, scales, unscaled, images, textures, infos, i + 1);
    lemma_never_started_over(measure, scales, unscaled, images, textures, infos, j + 1);
    lemma_placed_image(
        measure,
        scales[i],
        unscaled[i],
        picture(images[i]),
        textures[i],
        textures[i + 1],
        infos[i],
    );
    lemma_placed_image(
        measure,
        scales[j],
        unscaled[j],
        picture(images[j]),
        textures[j],
        textures[j + 1],
        infos[j],
    );
    lemma_stays(measure, scales, unscaled, images, textures, infos, i, j);
    lemma_stays(measure, scales, unscaled, images, textures, infos, i, images.len() as int);
    let (a, b) = (infos[i].uv_rect, infos[j].uv_rect);
    let (w, h) = (images[j].width as nat, images[j].height as nat);
    let p = textures[j].position(w, h);
    assert(textures[j].has_room(w, h)) by {
        assert(images[j].width > 0);
        assert(!textures[j + 1].overflowed);
    }
    assert(b.min@[0] == p.0 && b.min@[1] == p.1);
    if a.max@[0] > b.min@[0] && b.max@[0] > a.min@[0] && a.max@[1] > b.min@[1] && b.max@[1]
        > a.min@[1] {
        let x = if a.min@[0] > b.min@[0] {
            a.min@[0] as int
        } else {
            b.min@[0] as int
        };
        let y = if a.min@[1] > b.min@[1] {
            a.min@[1] as int
        } else {
            b.min@[1] as int
        };
        assert(textures[j].fresh(x, y));
        assert(!textures[j].fresh(x, y));
    }
}

/// The texture did not start over earlier, and was no higher.
proof fn lemma_never_started_over<F: Fn(FontScale, Measure) -> Float32>(
    measure: F,
    scales: Seq<FontScale>,
    unscaled: Seq<Float32>,
    images: Seq<GlyphImage>,
    textures: Seq<AtlasView>,
    infos: Seq<GlyphInfo>,
    n: int,
)
    requires
        0 <= n <= images.len(),
        textures.len() == images.len() + 1,
        forall|k: int| #![trigger images[k]]
            0 <= k < images.len() ==> {
                &&& images[k].width > 0
                &&& images[k].height > 0
                &&& obstacle(Some(images[k]@), textures[k]) is None
                &&& glyph_placed(
                    measure,
                    scales[k],
                    unscaled[k],
                    Some(images[k]@),
                    textures[k],
                    textures[k + 1],
                    infos[k],
                )
            },
        !textures.last().overflowed,
    ensures
        !textures[n].overflowed,
        textures[n].width == textures.last().width,
        textures[n].height <= textures.last().height,
    decreases images.len() - n,
{
    if n < images.len() {
        assert(images[n].width > 0);
        lemma_never_started_over(measure, scales, unscaled, images, textures, infos, n + 1);
        assert(drawable(Some(images[n]@)) == Some(images[n]@));
    }
}

/// A glyph that was drawn first is still there before the glyph `n` is drawn, and no pixel
/// of it is free.
proof fn lemma_stays<F: Fn(FontScale, Measure) -> Float32>(
    measure: F,
    scales: Seq<FontScale>,
    unscaled: Seq<Float32>,
    images: Seq<GlyphImage>,
    textures: Seq<AtlasView>,
    infos: Seq<GlyphInfo>,
    i: int,
    n: int,
)
    requires
        0 <= i < n <= images.len(),
        textures.len() == images.len() + 1,
        forall|k: int| #![trigger images[k]]
            0 <= k < images.len() ==> {
                &&& images[k].width > 0
                &&& images[k].height > 0
                &&& obstacle(Some(images[k]@), textures[k]) is None
                &&& glyph_placed(
                    measure,
                    scales[k],
                    unscaled[k],
                    Some(images[k]@),
                    textures[k],
                    textures[k + 1],
                    infos[k],
                )
            },
        !textures.last().overflowed,
        textures.last().width <= u16::MAX,
        textures.last().height <= u16::MAX,
    ensures
        shows_image(measure, scales[i], picture(images[i]), textures[n], infos[i].uv_rect),
        forall|x: int, y: int|
            infos[i].uv_rect.min@[0] <= x < infos[i].uv_rect.max@[0] && infos[i].uv_rect.min@[1]
                <= y < infos[i].uv_rect.max@[1] ==> !#[trigger] textures[n].fresh(x, y),
    decreases n - i,
{
    let a = infos[i].uv_rect;
    assert(images[n - 1].width > 0);
    lemma_never_started_over(measure, scales, unscaled, images, textures, infos, n);
    let (before, after) = (textures[n - 1], textures[n]);
    let (w, h) = (images[n - 1].width as nat, images[n - 1].height as nat);
    lemma_placed_image(
        measure,
        scales[n - 1],
        unscaled[n - 1],
        picture(images[n - 1]),
        before,
        after,
        infos[n - 1],
    );
    assert(before.has_room(w, h));
    let p = before.position(w, h);
    let b = infos[n - 1].uv_rect;
    assert(b.min@[0] == p.0 && b.min@[1] == p.1 && b.max@[0] == p.0 + w && b.max@[1] == p.1 + h);
    if n - 1 > i {
        lemma_stays(measure, scales, unscaled, images, textures, infos, i, n - 1);
        assert forall|x: int, y: int|
            a.min@[0] <= x < a.max@[0] && a.min@[1] <= y < a.max@[1] implies !#[trigger] after.fresh(
            x,
            y,
        ) by {
            assert(!before.fresh(x, y));
        }
        assert forall|dx: int, dy: int|
            0 <= dx < images[i].width && 0 <= dy < images[i].height implies #[trigger] (
        after.pixels)(a.min@[0] + dx, a.min@[1] + dy) == images[i].data@[dy * images[i].width
            + dx] by {
            assert((before.pixels)(a.min@[0] + dx, a.min@[1] + dy) == images[i].data@[dy
                * images[i].width + dx]);
            assert(!before.fresh(a.min@[0] + dx, a.min@[1] + dy));
        }
    }
}

} // verus!
