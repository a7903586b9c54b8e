//! The framebuffer.
use vstd::prelude::*;

verus! {

/// An image of `width` by `height` pixels with its bytes, four per pixel in
/// the order blue, green, red, alpha.
#[derive(Debug, Default)]
pub struct Bitmap {
    pub width: i32,
    pub height: i32,
    pub data: Option<Vec<u8>>,
}

impl Bitmap {
    /// Whether the bitmap has as many bytes as its dimensions ask for.
    pub open spec fn well_formed(&self) -> bool {
        &&& 0 <= self.width
        &&& 0 <= self.height
        &&& self.data.is_some()
        &&& self.data.unwrap()@.len() == self.width * self.height * 4
    }

    /// The byte offset of the pixel in column `x` of row `y`.
    pub open spec fn spec_offset(&self, x: i32, y: i32) -> int {
        (y * self.width + x) * 4
    }

    /// Stores a pixel at byte `offset`: blue, green, red, then an opaque
    /// alpha. Every other byte is left as it is.
    pub fn write_pixel(&mut self, offset: usize, r: u8, g: u8, b: u8)
        requires
            old(self).data.is_some(),
            offset + 3 < old(self).data.unwrap()@.len(),
        ensures
            final(self).width == old(self).width,
            final(self).height == old(self).height,
            final(self).data.is_some(),
            final(self).data.unwrap()@ == old(self).data.unwrap()@.update(offset as int, b).update(
                offset + 1,
                g,
            ).update(offset + 2, r).update(offset + 3, 0xFFu8),
    {
        match &mut self.data {
            Some(data) => {
                let len = data.len();
                assert(offset + 3 < len);
                data.set(offset, b);
                data.set(offset + 1, g);
                data.set(offset + 2, r);
                data.set(offset + 3, 0xFF);
            },
            None => {},
        }
    }

    /// The red, green and blue bytes of the pixel in column `x` of row `y`.
    pub fn rgb_at(&self, x: i32, y: i32) -> (rgb: (u8, u8, u8))
        requires
            self.well_formed(),
            0 <= x < self.width,
            0 <= y < self.height,
        ensures
            rgb.0 == self.data.unwrap()@[self.spec_offset(x, y) + 2],
            rgb.1 == self.data.unwrap()@[self.spec_offset(x, y) + 1],
            rgb.2 == self.data.unwrap()@[self.spec_offset(x, y)],
    {
        proof {
            let w: int = self.width as int;
            let h: int = self.height as int;
            let xi: int = x as int;
            let yi: int = y as int;
            assert(0 <= yi * w && yi * w + xi < w * h) by (nonlinear_arith)
                requires
                    0 <= xi < w,
                    0 <= yi < h,
            ;
            assert(w * h * 4 == (w * h) * 4);
        }
        let data = self.data.as_ref().unwrap();
        let len = data.len();
        assert(len == (self.width as int) * (self.height as int) * 4);
        let offset: usize = ((y as usize) * (self.width as usize) + (x as usize)) * 4;
        (data[offset + 2], data[offset + 1], data[offset])
    }
}

/// A bitmap of the given size with every byte zero.
pub fn create_bitmap(width: i32, height: i32) -> (bitmap: Bitmap)
    requires
        0 <= width,
        0 <= height,
        width * height * 4 <= i32::MAX,
    ensures
        bitmap.width == width,
        bitmap.height == height,
        bitmap.well_formed(),
        forall|i: int| 0 <= i < width * height * 4 ==> bitmap.data.unwrap()@[i] == 0u8,
{
    proof {
        assert(0 <= width * height <= width * height * 4) by (nonlinear_arith)
            requires
                0 <= width,
                0 <= height,
        ;
    }
    let buffer_size: usize = (width * height * 4) as usize;
    let data = Some(vec![0u8; buffer_size]);
    Bitmap { width, height, data }
}

} // verus!
