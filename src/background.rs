use vstd::prelude::*;

use vstd::arithmetic::div_mod::{lemma_div_by_multiple, lemma_div_is_ordered};

use crate::rgbcolor::RGBColor;

verus! {

/// One channel of the vertical gradient at row `row` of `img_height` rows:
/// `c1 + alpha * (c2 - c1)` with `alpha = row / img_height`, the fraction
/// truncated toward zero.
pub open spec fn gradient_channel(c1: int, c2: int, row: int, img_height: int) -> int {
    if c1 <= c2 {
        c1 + (row * (c2 - c1)) / img_height
    } else {
        c1 - (row * (c1 - c2)) / img_height
    }
}

/// The color a ray that hits nothing sees: a vertical blend from `color1` at
/// the top row towards `color2` at the bottom.
#[derive(Debug, Clone, Copy, PartialEq, Eq, Structural)]
pub struct Background {
    pub color1: RGBColor,
    pub color2: RGBColor,
}

/// `row * span / img_height` never exceeds `span` for a row inside the image.
proof fn lemma_fraction_bound(row: int, span: int, img_height: int)
    requires
        0 <= row <= img_height,
        0 < img_height,
        0 <= span,
    ensures
        0 <= (row * span) / img_height <= span,
{
    assert(0 <= row * span <= span * img_height) by (nonlinear_arith)
        requires
            0 <= row <= img_height,
            0 <= span,
    ;
    lemma_div_is_ordered(0, row * span, img_height);
    lemma_div_is_ordered(row * span, span * img_height, img_height);
    lemma_div_by_multiple(span, img_height);
}

fn blend_channel(c1: u8, c2: u8, row: usize, img_height: usize) -> (r: u8)
    requires
        0 < img_height,
        row <= img_height,
    ensures
        r == gradient_channel(c1 as int, c2 as int, row as int, img_height as int),
{
    let span: u8 = if c1 <= c2 {
        c2 - c1
    } else {
        c1 - c2
    };
    proof {
        lemma_fraction_bound(row as int, span as int, img_height as int);
        assert((row as u128) * (span as u128) <= (usize::MAX as u128) * 255) by (nonlinear_arith)
            requires
                row <= usize::MAX,
                span <= 255,
        ;
    }
    let step: u128 = (row as u128) * (span as u128) / (img_height as u128);
    if c1 <= c2 {
        c1 + step as u8
    } else {
        c1 - step as u8
    }
}

impl Background {
    pub fn new(color1: RGBColor, color2: RGBColor) -> (r: Self)
        ensures
            r.color1 == color1,
            r.color2 == color2,
    {
        Self { color1, color2 }
    }

    /// The gradient's color at pixel row `row` of an image `img_height` rows high.
    pub fn get_rgb(&self, row: usize, img_height: usize) -> (r: RGBColor)
        requires
            0 < img_height,
            row <= img_height,
        ensures
            r.r == gradient_channel(self.color1.r as int, self.color2.r as int, row as int, img_height as int),
            r.g == gradient_channel(self.color1.g as int, self.color2.g as int, row as int, img_height as int),
            r.b == gradient_channel(self.color1.b as int, self.color2.b as int, row as int, img_height as int),
    {
        RGBColor {
            r: blend_channel(self.color1.r, self.color2.r, row, img_height),
            g: blend_channel(self.color1.g, self.color2.g, row, img_height),
            b: blend_channel(self.color1.b, self.color2.b, row, img_height),
        }
    }
}

} // verus!
