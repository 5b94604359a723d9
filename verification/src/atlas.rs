//! The texture that glyphs are drawn into.

use vstd::prelude::*;

verus! {

/// Empty pixels to the right of and below each glyph, so that low-precision
/// sampling does not muddle up neighbours.
pub const PADDING: usize = 1;

/// A texture that is filled with rectangles row by row.
///
/// The texture grows downwards until it has its greatest height. After that
/// there is no fresh space: it starts over, a third down, and glyphs that were
/// drawn there are overwritten.
pub struct TextureAtlas {
    width: usize,
    height: usize,
    max_height: usize,
    /// Coverage of each pixel, from 0 to 255: the rows from the top, each from the left.
    pixels: Vec<u8>,
    /// Where the next rectangle goes, if it fits into the row.
    cursor_x: usize,
    cursor_y: usize,
    /// Height of the tallest rectangle in the row.
    row_height: usize,
    overflowed: bool,
}

/// A [`TextureAtlas`] as a mathematical value.
pub struct AtlasView {
    /// Width in pixels.
    pub width: nat,
    /// Height in pixels.
    pub height: nat,
    /// The height that the texture may grow to.
    pub max_height: nat,
    /// Coverage of each pixel, by column and row.
    pub pixels: spec_fn(int, int) -> u8,
    /// Column where the next rectangle goes, if it fits into the row.
    pub cursor_x: nat,
    /// Top of the row.
    pub cursor_y: nat,
    /// Height of the tallest rectangle in the row.
    pub row_height: nat,
    /// Has the texture started over?
    pub overflowed: bool,
}

/// Is the pixel in the column `x` and the row `y` inside the rectangle?
pub open spec fn in_rect(x: int, y: int, pos: (nat, nat), w: nat, h: nat) -> bool {
    pos.0 <= x < pos.0 + w && pos.1 <= y < pos.1 + h
}

impl AtlasView {
    /// A pixel of the texture.
    pub open spec fn in_bounds(self, x: int, y: int) -> bool {
        0 <= x < self.width && 0 <= y < self.height
    }

    /// Can every corner of a rectangle in the texture, as high as it is now, be given in 16
    /// bits?
    pub open spec fn addressable(self) -> bool {
        self.width <= u16::MAX && self.height <= u16::MAX
    }

    /// Does a rectangle of this width need a new row?
    pub open spec fn needs_row(self, w: nat) -> bool {
        self.cursor_x + w > self.width
    }

    /// Top of the row that a rectangle of this width goes into.
    pub open spec fn row_top(self, w: nat) -> nat {
        if self.needs_row(w) {
            self.cursor_y + self.row_height + PADDING as nat
        } else {
            self.cursor_y
        }
    }

    /// Height of that row with the rectangle in it.
    pub open spec fn row_extent(self, w: nat, h: nat) -> nat {
        if !self.needs_row(w) && self.row_height > h {
            self.row_height
        } else {
            h
        }
    }

    /// Is there fresh space for the rectangle?
    pub open spec fn has_room(self, w: nat, h: nat) -> bool {
        w <= self.width && self.row_top(w) + self.row_extent(w, h) <= self.max_height
    }

    /// Where the texture starts over.
    pub open spec fn restart(self) -> nat {
        self.max_height / 3
    }

    /// Can the rectangle be placed, if need be by starting over?
    pub open spec fn fits(self, w: nat, h: nat) -> bool {
        w <= self.width && (self.has_room(w, h) || self.restart() + h <= self.max_height)
    }

    /// Where the rectangle goes.
    pub open spec fn position(self, w: nat, h: nat) -> (nat, nat) {
        if !self.has_room(w, h) {
            (0, self.restart())
        } else if self.needs_row(w) {
            (0, self.row_top(w))
        } else {
            (self.cursor_x, self.cursor_y)
        }
    }

    /// Height of the row with the rectangle in it, wherever it goes.
    pub open spec fn new_row_height(self, w: nat, h: nat) -> nat {
        if self.has_room(w, h) {
            self.row_extent(w, h)
        } else {
            h
        }
    }

    /// The bookkeeping after the rectangle has been placed: the texture is as high
    /// as is needed, and the next rectangle goes to the right of this one.
    pub open spec fn advanced(self, w: nat, h: nat, after: AtlasView) -> bool {
        let pos = self.position(w, h);
        let bottom = pos.1 + self.new_row_height(w, h);
        &&& after.width == self.width
        &&& after.max_height == self.max_height
        &&& after.height == (if bottom > self.height { bottom } else { self.height })
        &&& after.cursor_x == pos.0 + w + PADDING
        &&& after.cursor_y == pos.1
        &&& after.row_height == self.new_row_height(w, h)
        &&& after.overflowed == (self.overflowed || !self.has_room(w, h))
    }

    /// Coverage of a pixel, and none outside of the texture.
    pub open spec fn coverage(self, x: int, y: int) -> u8 {
        if self.in_bounds(x, y) {
            (self.pixels)(x, y)
        } else {
            0
        }
    }

    /// The texture after the rectangle has been placed in it: nothing is drawn yet.
    pub open spec fn placed(self, w: nat, h: nat, after: AtlasView) -> bool {
        &&& self.advanced(w, h, after)
        &&& forall|x: int, y: int| #[trigger] after.coverage(x, y) == self.coverage(x, y)
    }

    /// The texture after an image has been drawn in it: the bytes of the image
    /// are the coverage of its pixels, and all other pixels are as before.
    pub open spec fn drawn(
        self,
        pos: (nat, nat),
        w: nat,
        h: nat,
        data: Seq<u8>,
        after: AtlasView,
    ) -> bool {
        &&& after == (AtlasView { pixels: after.pixels, ..self })
        &&& self.covered(pos, w, h, data, after)
    }

    /// The bytes of an image are the coverage of its pixels, and all other pixels
    /// are as before.
    pub open spec fn covered(
        self,
        pos: (nat, nat),
        w: nat,
        h: nat,
        data: Seq<u8>,
        after: AtlasView,
    ) -> bool {
        forall|x: int, y: int| #[trigger]
            after.coverage(x, y) == (if in_rect(x, y, pos, w, h) {
                data[(y - pos.1) * w + (x - pos.0)]
            } else {
                self.coverage(x, y)
            })
    }

    /// The texture after a place has been found for an image and the image has
    /// been drawn there.
    pub open spec fn painted(self, w: nat, h: nat, data: Seq<u8>, after: AtlasView) -> bool {
        &&& self.advanced(w, h, after)
        &&& self.covered(self.position(w, h), w, h, data, after)
    }

    /// Has nothing been placed on this pixel since the texture was made or started
    /// over?
    pub open spec fn fresh(self, x: int, y: int) -> bool {
        y >= self.cursor_y + self.row_height || (y >= self.cursor_y && x >= self.cursor_x)
    }
}

/// Rows of equal length do not overlap: a pixel has one place in the buffer.
proof fn lemma_one_place(x1: int, y1: int, x2: int, y2: int, width: int)
    by (nonlinear_arith)
    requires
        0 <= x1 < width,
        0 <= x2 < width,
        y1 * width + x1 == y2 * width + x2,
    ensures
        x1 == x2,
        y1 == y2,
{
}

/// A pixel inside of the texture has a place inside of the buffer.
proof fn lemma_in_buffer(x: int, y: int, width: int, height: int)
    by (nonlinear_arith)
    requires
        0 <= x < width,
        0 <= y < height,
    ensures
        0 <= y * width <= y * width + x < width * height,
{
}

impl TextureAtlas {
    /// The shape that all operations keep.
    pub closed spec fn well_formed(self) -> bool {
        &&& self.pixels@.len() == self.width * self.height
        &&& self.height <= self.max_height
        &&& self.cursor_x <= self.width + PADDING
        &&& self.cursor_y + self.row_height <= self.max_height
        &&& 2 * self.width + 2 * PADDING <= usize::MAX
        &&& 2 * self.max_height + 2 * PADDING <= usize::MAX
        &&& self.width * self.max_height <= usize::MAX
    }
}

impl View for TextureAtlas {
    type V = AtlasView;

    closed spec fn view(&self) -> AtlasView {
        AtlasView {
            width: self.width as nat,
            height: self.height as nat,
            max_height: self.max_height as nat,
            pixels: |x: int, y: int| self.pixels@[y * self.width + x],
            cursor_x: self.cursor_x as nat,
            cursor_y: self.cursor_y as nat,
            row_height: self.row_height as nat,
            overflowed: self.overflowed,
        }
    }
}

impl TextureAtlas {
    /// An empty texture of this width, which may grow to this height.
    pub fn new(width: usize, max_height: usize) -> (atlas: Self)
        requires
            2 * width + 2 * PADDING <= usize::MAX,
            2 * max_height + 2 * PADDING <= usize::MAX,
            width * max_height <= usize::MAX,
        ensures
            atlas.well_formed(),
            atlas@.width == width,
            atlas@.height == 0,
            atlas@.max_height == max_height,
            atlas@.cursor_x == 0,
            atlas@.cursor_y == 0,
            atlas@.row_height == 0,
            !atlas@.overflowed,
    {
        TextureAtlas {
            width,
            height: 0,
            max_height,
            pixels: Vec::new(),
            cursor_x: 0,
            cursor_y: 0,
            row_height: 0,
            overflowed: false,
        }
    }

    /// Width and height in pixels.
    pub fn size(&self) -> (size: [usize; 2])
        ensures
            size@[0] == self@.width,
            size@[1] == self@.height,
    {
        [self.width, self.height]
    }

    /// Coverage of a pixel, from 0 to 255; 0 outside of the texture.
    pub fn pixel(&self, x: usize, y: usize) -> (coverage: u8)
        requires
            self.well_formed(),
        ensures
            coverage == self@.coverage(x as int, y as int),
    {
        if x < self.width && y < self.height {
            proof {
                lemma_in_buffer(x as int, y as int, self.width as int, self.height as int);
            }
            assert(self.pixels.len() <= usize::MAX);
            self.pixels[y * self.width + x]
        } else {
            0
        }
    }

    /// Can a rectangle of this size be placed, if need be by starting over?
    pub fn fits(&self, w: usize, h: usize) -> (fits: bool)
        requires
            self.well_formed(),
        ensures
            fits == self@.fits(w as nat, h as nat),
    {
        w <= self.width && h <= self.max_height && (self.has_room(w, h) || h <= self.max_height
            - self.max_height / 3)
    }

    /// Is there fresh space for a rectangle of this size?
    fn has_room(&self, w: usize, h: usize) -> (has_room: bool)
        requires
            self.well_formed(),
            w <= self.width,
            h <= self.max_height,
        ensures
            has_room == self@.has_room(w as nat, h as nat),
    {
        if self.cursor_x + w > self.width {
            self.cursor_y + self.row_height + PADDING + h <= self.max_height
        } else if self.row_height > h {
            true
        } else {
            self.cursor_y + h <= self.max_height
        }
    }

    /// Finds a place for a rectangle of this size and returns its top left pixel.
    pub fn allocate(&mut self, w: usize, h: usize) -> (pos: (usize, usize))
        requires
            old(self).well_formed(),
            old(self)@.fits(w as nat, h as nat),
        ensures
            final(self).well_formed(),
            pos.0 == old(self)@.position(w as nat, h as nat).0,
            pos.1 == old(self)@.position(w as nat, h as nat).1,
            pos.0 + w <= final(self)@.width <= usize::MAX,
            pos.1 + h <= final(self)@.height <= usize::MAX,
            old(self)@.placed(w as nat, h as nat, final(self)@),
    {
        let ghost before = self@;
        if self.has_room(w, h) {
            if self.cursor_x + w > self.width {
                // New row:
                self.cursor_y = self.cursor_y + self.row_height + PADDING;
                self.cursor_x = 0;
                self.row_height = 0;
            }
            if self.row_height < h {
                self.row_height = h;
            }
        } else {
            // We need to start reusing space.
            self.cursor_x = 0;
            self.cursor_y = self.max_height / 3;
            self.row_height = h;
            self.overflowed = true;
        }
        let ghost moved = self@;
        self.grow(self.cursor_y + self.row_height);
        let ghost grown = self@;
        let pos = (self.cursor_x, self.cursor_y);
        self.cursor_x = self.cursor_x + w + PADDING;
        proof {
            assert forall|x: int, y: int| #[trigger]
                self@.coverage(x, y) == before.coverage(x, y) by {
                assert(self@.coverage(x, y) == grown.coverage(x, y));
                assert(moved.coverage(x, y) == before.coverage(x, y));
            }
        }
        pos
    }

    /// Adds empty rows until the texture is this high.
    fn grow(&mut self, height: usize)
        requires
            old(self).well_formed(),
            height <= old(self)@.max_height,
        ensures
            final(self).well_formed(),
            final(self)@ == (AtlasView {
                height: if height > old(self)@.height { height as nat } else { old(self)@.height },
                pixels: final(self)@.pixels,
                ..old(self)@
            }),
            forall|x: int, y: int| #[trigger]
                final(self)@.coverage(x, y) == old(self)@.coverage(x, y),
    {
        if height > self.height {
            proof {
                assert(self.width * height <= self.width * self.max_height) by (nonlinear_arith)
                    requires
                        height <= self.max_height,
                ;
                assert(self.width * self.height <= self.width * height) by (nonlinear_arith)
                    requires
                        self.height <= height,
                ;
            }
            let ghost before = *self;
            let len: usize = self.width * height;
            while self.pixels.len() < len
                invariant
                    *self == (TextureAtlas { pixels: self.pixels, ..before }),
                    before.pixels@.len() <= self.pixels@.len() <= len,
                    forall|i: int|
                        0 <= i < self.pixels@.len() ==> #[trigger] self.pixels@[i] == (if i
                            < before.pixels@.len() {
                            before.pixels@[i]
                        } else {
                            0
                        }),
                decreases len - self.pixels@.len(),
            {
                self.pixels.push(0);
            }
            self.height = height;
            proof {
                let w = self.width as int;
                assert forall|x: int, y: int| #[trigger]
                    self@.coverage(x, y) == before@.coverage(x, y) by {
                    if self@.in_bounds(x, y) {
                        lemma_in_buffer(x, y, w, height as int);
                        if y < before.height {
                            lemma_in_buffer(x, y, w, before.height as int);
                        } else {
                            assert(y * w + x >= w * before.height) by (nonlinear_arith)
                                requires
                                    y >= before.height,
                                    x >= 0,
                                    w >= 0,
                            ;
                        }
                    }
                }
            }
        }
    }

    /// Draws an image whose bytes are the coverage of its pixels.
    pub fn draw_mask(&mut self, pos: (usize, usize), w: usize, h: usize, data: &Vec<u8>)
        requires
            old(self).well_formed(),
            pos.0 + w <= old(self)@.width,
            pos.1 + h <= old(self)@.height,
            w * h <= data@.len(),
        ensures
            final(self).well_formed(),
            old(self)@.drawn((pos.0 as nat, pos.1 as nat), w as nat, h as nat, data@, final(self)@),
    {
        let mut i: usize = 0;
        let ghost before = *self;
        let ghost at = (pos.0 as nat, pos.1 as nat);
        let mut y: usize = 0;
        while y < h
            invariant
                *self == (TextureAtlas { pixels: self.pixels, ..before }),
                self.pixels@.len() == before.pixels@.len(),
                before.well_formed(),
                at == (pos.0 as nat, pos.1 as nat),
                pos.0 + w <= before.width,
                pos.1 + h <= before.height,
                w * h <= data@.len(),
                y <= h,
                i == y * w,
                before@.covered(at, w as nat, y as nat, data@, self@),
            decreases h - y,
        {
            let mut x: usize = 0;
            while x < w
                invariant
                    *self == (TextureAtlas { pixels: self.pixels, ..before }),
                    self.pixels@.len() == before.pixels@.len(),
                    before.well_formed(),
                    at == (pos.0 as nat, pos.1 as nat),
                    pos.0 + w <= before.width,
                    pos.1 + h <= before.height,
                    w * h <= data@.len(),
                    y < h,
                    x <= w,
                    i == y * w + x,
                    forall|px: int, py: int| #[trigger]
                        self@.coverage(px, py) == (if in_rect(px, py, at, w as nat, y as nat) || (py
                            == pos.1 + y && pos.0 <= px < pos.0 + x) {
                            data@[(py - pos.1) * w + (px - pos.0)]
                        } else {
                            before@.coverage(px, py)
                        }),
                decreases w - x,
            {
                proof {
                    assert(y * w + x < w * h) by (nonlinear_arith)
                        requires
                            y < h,
                            x < w,
                    ;
                    lemma_in_buffer(pos.0 + x, pos.1 + y, self.width as int, self.height as int);
                    assert(self.pixels.len() <= usize::MAX);
                    assert(data.len() <= usize::MAX);
                }
                let ghost prior = *self;
                let at_pixel: usize = (pos.1 + y) * self.width + (pos.0 + x);
                self.pixels[at_pixel] = data[i];
                proof {
                    let width = self.width as int;
                    assert forall|px: int, py: int| #[trigger]
                        self@.coverage(px, py) == (if px == pos.0 + x && py == pos.1 + y {
                            data@[i as int]
                        } else {
                            prior@.coverage(px, py)
                        }) by {
                        if self@.in_bounds(px, py) {
                            lemma_in_buffer(px, py, width, self.height as int);
                            if py * width + px == at_pixel {
                                lemma_one_place(px, py, pos.0 + x, pos.1 + y, width);
                            }
                        }
                    }
                }
                i = i + 1;
                x = x + 1;
            }
            proof {
                assert((y + 1) * w == y * w + w) by (nonlinear_arith);
            }
            y = y + 1;
        }
    }

    /// Has the texture started over, so that glyphs may have been overwritten?
    pub fn overflowed(&self) -> (overflowed: bool)
        ensures
            overflowed == self@.overflowed,
    {
        self.overflowed
    }
}

} // verus!
