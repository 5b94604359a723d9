//! What is measured in points, and by which scale.

use crate::number::Float32;
use vstd::prelude::*;

verus! {

/// Width of a tab, in spaces.
pub const TAB_SIZE: usize = 4;

/// The scale of one font at one size.
#[derive(Clone, Copy, Debug)]
pub struct FontScale {
    /// Horizontal & vertical scale factor, from font units to pixels.
    pub scale_factor: Float32,
    /// Pixels per em.
    pub font_size: Float32,
    /// Maximum character height, in pixels.
    pub scale_in_pixels: u32,
    /// Height of one row of text (unit: points).
    pub height_in_points: Float32,
    /// Move each character down by this much (unit: points).
    pub y_offset_in_points: Float32,
    /// From the top to the baseline (unit: points).
    pub ascent: Float32,
    /// Physical pixels in one point.
    pub pixels_per_point: Float32,
}

/// A quantity to be worked out in points, given the scale of its font.
///
/// The functions of this crate take a function that does the working out, and
/// hold for every such function.
#[derive(Clone, Copy, Debug)]
pub enum Measure {
    /// The advance width of a glyph:
    /// `scale_factor` × `unscaled` ÷ `pixels_per_point`.
    Advance {
        /// Advance width in font units.
        unscaled: Float32,
    },
    /// The advance width of a tab: `spaces` × `space`.
    Tab {
        /// Width of the tab in spaces.
        spaces: usize,
        /// Advance width of a space in points.
        space: Float32,
    },
    /// The advance width of a thin space: half of `space`, but no more than a
    /// sixth of `height_in_points`.
    ThinSpace {
        /// Advance width of a space in points.
        space: Float32,
    },
    /// How far to the right of its origin a glyph is painted:
    /// `pixels` ÷ `pixels_per_point`.
    OffsetX {
        /// The distance in pixels.
        pixels: i32,
    },
    /// How far below its baseline a glyph is painted:
    /// `pixels` ÷ `pixels_per_point` + `y_offset_in_points`.
    OffsetY {
        /// The distance in pixels.
        pixels: i32,
    },
    /// The width or the height of a glyph: `extent` ÷ `pixels_per_point`.
    Length {
        /// The length in pixels.
        extent: u32,
    },
}

/// May `x` be what `measure` works out?
pub open spec fn measured<F: Fn(FontScale, Measure) -> Float32>(
    measure: F,
    scale: FontScale,
    quantity: Measure,
    x: Float32,
) -> bool {
    call_ensures(measure, (scale, quantity), x)
}

/// Does `measure` always work out the same for the same quantity in the same scale?
pub open spec fn measures_one<F: Fn(FontScale, Measure) -> Float32>(measure: F) -> bool {
    forall|scale: FontScale, quantity: Measure, x: Float32, y: Float32|
        #[trigger] measured(measure, scale, quantity, x) && #[trigger] measured(
            measure,
            scale,
            quantity,
            y,
        ) ==> x == y
}

/// Can `measure` be asked for every quantity in every scale?
pub open spec fn measures_all<F: Fn(FontScale, Measure) -> Float32>(measure: F) -> bool {
    forall|scale: FontScale, quantity: Measure| #[trigger]
        call_requires(measure, (scale, quantity))
}

} // verus!
