use vstd::prelude::*;

verus! {

/// An 8-bit RGBA pixel, laid out as four consecutive bytes.
#[derive(Debug, Clone, Copy, PartialEq, Eq, Structural)]
pub struct Pixel {
    pub r: u8,
    pub g: u8,
    pub b: u8,
    pub a: u8,
}

impl Pixel {
    pub fn new(r: u8, g: u8, b: u8, a: u8) -> (res: Self)
        ensures
            res == (Pixel { r, g, b, a }),
    {
        Self { r, g, b, a }
    }
}

/// Bytes in one pixel.
pub const PIXEL_BYTES: u32 = 4;

/// What a pixel buffer is: its dimensions and its pixels, row by row.
pub struct PixelBufferView {
    pub width: nat,
    pub height: nat,
    pub pixels: Seq<Pixel>,
}

/// The byte of `pixels` at position `i` when the pixels are laid out as
/// consecutive `r, g, b, a` quadruples.
pub open spec fn pixel_byte(pixels: Seq<Pixel>, i: int) -> u8 {
    let p = pixels[i / 4];
    if i % 4 == 0 {
        p.r
    } else if i % 4 == 1 {
        p.g
    } else if i % 4 == 2 {
        p.b
    } else {
        p.a
    }
}

/// A frame of RGBA pixels, row by row.
pub struct PixelBuffer {
    width: u32,
    height: u32,
    buf: Vec<Pixel>,
}

impl View for PixelBuffer {
    type V = PixelBufferView;

    closed spec fn view(&self) -> PixelBufferView {
        PixelBufferView { width: self.width as nat, height: self.height as nat, pixels: self.buf@ }
    }
}

impl PixelBuffer {
    /// One pixel for each column of each row.
    pub open spec fn wf(&self) -> bool {
        self@.pixels.len() == self@.width * self@.height
    }

    /// A `width` by `height` buffer of zeroed pixels.
    pub fn new(width: u32, height: u32) -> (r: Self)
        requires
            width * height <= u32::MAX,
        ensures
            r.wf(),
            r@.width == width,
            r@.height == height,
            forall|i: int| 0 <= i < r@.pixels.len() ==> r@.pixels[i] == (Pixel { r: 0, g: 0, b: 0, a: 0 }),
    {
        let len: u32 = width * height;
        let mut buf: Vec<Pixel> = Vec::new();
        let mut i: u32 = 0;
        while i < len
            invariant
                i <= len,
                buf@.len() == i,
                forall|j: int| 0 <= j < i ==> buf@[j] == (Pixel { r: 0, g: 0, b: 0, a: 0 }),
            decreases len - i,
        {
            buf.push(Pixel { r: 0, g: 0, b: 0, a: 0 });
            i = i + 1;
        }
        Self { width, height, buf }
    }

    /// Paints every pixel with `color`.
    pub fn clear(&mut self, color: Pixel)
        ensures
            final(self)@.width == old(self)@.width,
            final(self)@.height == old(self)@.height,
            final(self)@.pixels.len() == old(self)@.pixels.len(),
            forall|i: int| 0 <= i < final(self)@.pixels.len() ==> final(self)@.pixels[i] == color,
    {
        let n = self.buf.len();
        let mut i: usize = 0;
        while i < n
            invariant
                i <= n,
                n == self.buf@.len(),
                self.buf@.len() == old(self).buf@.len(),
                self.width == old(self).width,
                self.height == old(self).height,
                forall|j: int| 0 <= j < i ==> self.buf@[j] == color,
            decreases n - i,
        {
            self.buf.set(i, color);
            i = i + 1;
        }
    }

    /// Bytes in one row of the buffer.
    pub fn pitch(&self) -> (r: u32)
        requires
            self@.width * PIXEL_BYTES <= u32::MAX,
        ensures
            r == self@.width * PIXEL_BYTES,
    {
        self.width * PIXEL_BYTES
    }

    pub fn width(&self) -> (r: u32)
        ensures
            r == self@.width,
    {
        self.width
    }

    pub fn height(&self) -> (r: u32)
        ensures
            r == self@.height,
    {
        self.height
    }

    /// The pixels as raw bytes, `r, g, b, a` for each pixel, row by row.
    pub fn as_bytes(&self) -> (r: Vec<u8>)
        requires
            self@.pixels.len() * 4 <= usize::MAX,
        ensures
            r@.len() == self@.pixels.len() * 4,
            forall|i: int| 0 <= i < r@.len() ==> #[trigger] r@[i] == pixel_byte(self@.pixels, i),
    {
        let n = self.buf.len();
        let mut bytes: Vec<u8> = Vec::with_capacity(n * 4);
        let mut k: usize = 0;
        while k < n
            invariant
                k <= n,
                n == self.buf@.len(),
                n * 4 <= usize::MAX,
                bytes@.len() == k * 4,
                forall|i: int| 0 <= i < k * 4 ==> #[trigger] bytes@[i] == pixel_byte(self.buf@, i),
            decreases n - k,
        {
            let p = self.buf[k];
            bytes.push(p.r);
            bytes.push(p.g);
            bytes.push(p.b);
            bytes.push(p.a);
            proof {
                assert forall|i: int| 0 <= i < (k + 1) * 4 implies #[trigger] bytes@[i] == pixel_byte(
                    self.buf@,
                    i,
                ) by {
                    if i >= k * 4 {
                        assert(i / 4 == k && i % 4 == i - k * 4);
                    }
                }
            }
            k = k + 1;
        }
        bytes
    }
}

} // verus!
