use vstd::prelude::*;

verus! {

/// An 8-bit-per-channel RGB color.
#[derive(Debug, Clone, Copy, PartialEq, Eq, Structural)]
pub struct RGBColor {
    pub r: u8,
    pub g: u8,
    pub b: u8,
}

impl RGBColor {
    pub fn new(r: u8, g: u8, b: u8) -> (res: Self)
        ensures
            res.r == r,
            res.g == g,
            res.b == b,
    {
        Self { r, g, b }
    }

    /// Pure black, the color every fresh surface starts with.
    pub open spec fn black() -> Self {
        RGBColor { r: 0, g: 0, b: 0 }
    }
}

} // verus!
