//! Textures: what colour a surface has at a point.
use vstd::prelude::*;
use crate::interval::Interval;
use crate::scalar::{Scalar, ONE_BITS};
use crate::vec3::Vec3;

verus! {

/// A texture of one colour.
#[derive(Debug, Clone, Copy, PartialEq, Eq, Structural)]
pub struct Texture {
    pub color: Vec3,
}

impl Texture {
    /// The texture of the given colour.
    pub fn new(color: Vec3) -> (t: Texture)
        ensures
            t.color == color,
    {
        Texture { color }
    }

    /// The colour, which is the same everywhere.
    pub fn value(&self) -> (c: Vec3)
        ensures
            c == self.color,
    {
        self.color
    }
}

/// A checkerboard in space of two plain textures; `inv_scale` is one over
/// the side of a cell.
#[derive(Debug, Clone, Copy, PartialEq, Eq, Structural)]
pub struct CheckerTexture {
    pub inv_scale: Scalar,
    pub odd: Texture,
    pub even: Texture,
}

impl CheckerTexture {
    /// The checkerboard of the two textures.
    pub fn new(odd: Texture, even: Texture, inv_scale: Scalar) -> (t: CheckerTexture)
        ensures
            t.odd == odd,
            t.even == even,
            t.inv_scale == inv_scale,
    {
        CheckerTexture { inv_scale, odd, even }
    }

    /// The colour of a cell: that of `odd` in the cells whose coordinates
    /// add up to an even number, that of `even` in the others.
    pub fn value(&self, is_even: bool) -> (c: Vec3)
        ensures
            c == if is_even {
                self.odd.color
            } else {
                self.even.color
            },
    {
        if is_even {
            self.odd.value()
        } else {
            self.even.value()
        }
    }
}

/// A texture of turbulent noise.
#[derive(Debug)]
pub struct NoiseTexture {
    pub scale: Scalar,
    pub noise: crate::perlin_noise::PerlinNoise,
}

impl NoiseTexture {
    /// The texture of the given scale over fresh noise with the given 256
    /// gradients.
    pub fn new(scale: Scalar, gradients: Vec<Vec3>) -> (t: NoiseTexture)
        requires
            gradients@.len() == crate::perlin_noise::POINT_COUNT,
        ensures
            t.scale == scale,
            t.noise.well_formed(),
            t.noise.rand_vec == gradients,
    {
        NoiseTexture { scale, noise: crate::perlin_noise::PerlinNoise::new(gradients) }
    }
}

/// A texture read from an image of four bytes per pixel: red, green, blue
/// and alpha. The pixels are kept by the crate `image`.
#[verifier::external_body]
pub struct ImageTexture {
    image: image::RgbaImage,
}

/// The bytes of the image, row after row, four for each pixel.
pub uninterp spec fn raster(texture: ImageTexture) -> Seq<u8>;

/// The width and the height of the image in pixels.
pub uninterp spec fn raster_size(texture: ImageTexture) -> (nat, nat);

/// The offset of the first byte of the pixel in column `x` of row `y`.
pub open spec fn pixel_offset(texture: ImageTexture, x: int, y: int) -> int {
    (y * raster_size(texture).0 + x) * 4
}

/// The four bytes of the pixel in column `x` of row `y`.
pub open spec fn pixel_bytes_at(texture: ImageTexture, x: int, y: int) -> Seq<u8> {
    raster(texture).subrange(pixel_offset(texture, x, y), pixel_offset(texture, x, y) + 4)
}

/// Whether the image holds the pixel in column `x` of row `y` and `bytes`
/// are its four bytes.
pub open spec fn holds_pixel(texture: ImageTexture, x: int, y: int, bytes: Seq<u8>) -> bool {
    &&& pixel_offset(texture, x, y) + 4 <= raster(texture).len()
    &&& bytes == pixel_bytes_at(texture, x, y)
}

/// Whether `len` bytes hold an image of the given size: four times the width
/// fits the machine's word, and four bytes for each pixel are there. (Where
/// the second holds, the number of bytes needed fits the word as well.)
pub open spec fn image_fits(width: u32, height: u32, len: nat) -> bool {
    4 * width <= usize::MAX && 4 * width * height <= len
}

/// Makes an image of the given size from its bytes with
/// `ImageBuffer::from_raw` of the crate `image`. That function counts the
/// bytes needed as four times the width, times the height, each product
/// checked against the machine's word, and gives `None` where a product does
/// not fit or the bytes are fewer than needed; else it keeps size and bytes
/// as they are. The first product can fail only where the word has 32 bits.
#[verifier::external_body]
fn image_from_raw(width: u32, height: u32, data: Vec<u8>) -> (r: Option<ImageTexture>)
    ensures
        r.is_some() == image_fits(width, height, data@.len()),
        r.is_some() ==> raster(r.unwrap()) == data@ && raster_size(r.unwrap()) == (
            width as nat,
            height as nat,
        ),
{
    image::RgbaImage::from_raw(width, height, data).map(|image| ImageTexture { image })
}

/// The width of the image, by `ImageBuffer::width` of the crate `image`.
#[verifier::external_body]
fn image_width(texture: &ImageTexture) -> (w: u32)
    ensures
        w == raster_size(*texture).0,
{
    texture.image.width()
}

/// The height of the image, by `ImageBuffer::height` of the crate `image`.
#[verifier::external_body]
fn image_height(texture: &ImageTexture) -> (h: u32)
    ensures
        h == raster_size(*texture).1,
{
    texture.image.height()
}

/// Whether the image has no bytes, by `is_empty` of the slice that an
/// `ImageBuffer` of the crate `image` dereferences to.
#[verifier::external_body]
fn image_is_empty(texture: &ImageTexture) -> (e: bool)
    ensures
        e == (raster(*texture).len() == 0),
{
    texture.image.is_empty()
}

/// The four bytes of the pixel in column `x` of row `y`, by
/// `ImageBuffer::get_pixel` of the crate `image`, which panics outside the
/// image and else reads the bytes from `(y * width + x) * 4` on, all of
/// which the image holds.
#[verifier::external_body]
fn image_get_pixel(texture: &ImageTexture, x: u32, y: u32) -> (pixel: [u8; 4])
    requires
        x < raster_size(*texture).0,
        y < raster_size(*texture).1,
    ensures
        holds_pixel(*texture, x as int, y as int, pixel@),
{
    texture.image.get_pixel(x, y).0
}

impl ImageTexture {
    /// The pixel that a pair of scaled coordinates falls on: each coordinate
    /// is held to the last column or row.
    pub open spec fn spec_pixel(self, scaled_x: usize, scaled_y: usize) -> (int, int) {
        let (w, h) = raster_size(self);
        (
            if scaled_x < w {
                scaled_x as int
            } else {
                w - 1
            },
            if scaled_y < h {
                scaled_y as int
            } else {
                h - 1
            },
        )
    }

    /// Whether the image has no pixel to sample.
    pub open spec fn spec_is_blank(self) -> bool {
        raster(self).len() == 0 || raster_size(self).0 == 0 || raster_size(self).1 == 0
    }

    /// The texture of an image of the given size and bytes, four per pixel
    /// and row after row; `None` when the bytes are too few for the size, or
    /// four times the width does not fit the machine's word.
    pub fn new(width: u32, height: u32, data: Vec<u8>) -> (r: Option<ImageTexture>)
        ensures
            r.is_some() == image_fits(width, height, data@.len()),
            r.is_some() ==> raster(r.unwrap()) == data@ && raster_size(r.unwrap()) == (
                width as nat,
                height as nat,
            ),
    {
        image_from_raw(width, height, data)
    }

    /// The width and the height of the image in pixels.
    pub fn size(&self) -> (r: (u32, u32))
        ensures
            r.0 == raster_size(*self).0,
            r.1 == raster_size(*self).1,
    {
        (image_width(self), image_height(self))
    }

    /// A surface coordinate brought into `[0, 1]`.
    pub fn clamp_coordinate(u: Scalar) -> (r: Scalar)
        ensures
            r == (Interval { min: Scalar { bits: 0 }, max: Scalar { bits: ONE_BITS } }).spec_clamp(
                u,
            ),
    {
        Interval::new(Scalar::zero(), Scalar::one()).clamp(u)
    }

    /// The red, green and blue bytes at a surface coordinate, given the
    /// coordinate scaled to pixels: `scaled_x` is the horizontal coordinate
    /// times the width, rounded down, and `scaled_y` likewise. `None` for an
    /// image without pixels.
    pub fn texel(&self, scaled_x: usize, scaled_y: usize) -> (r: Option<(u8, u8, u8)>)
        ensures
            r.is_none() <==> self.spec_is_blank(),
            r.is_some() ==> ({
                let (x, y) = self.spec_pixel(scaled_x, scaled_y);
                let at = pixel_offset(*self, x, y);
                0 <= at && at + 3 < raster(*self).len() && r.unwrap() == (
                    raster(*self)[at],
                    raster(*self)[at + 1],
                    raster(*self)[at + 2],
                )
            }),
    {
        let width = image_width(self);
        let height = image_height(self);
        if image_is_empty(self) || width == 0 || height == 0 {
            return None;
        }
        let x: u32 = if scaled_x < width as usize {
            scaled_x as u32
        } else {
            width - 1
        };
        let y: u32 = if scaled_y < height as usize {
            scaled_y as u32
        } else {
            height - 1
        };
        let pixel = image_get_pixel(self, x, y);
        proof {
            let at = pixel_offset(*self, x as int, y as int);
            assert(0 <= at) by (nonlinear_arith)
                requires
                    at == (y * raster_size(*self).0 + x) * 4,
            ;
            assert(pixel@[0] == raster(*self)[at]);
            assert(pixel@[1] == raster(*self)[at + 1]);
            assert(pixel@[2] == raster(*self)[at + 2]);
        }
        Some((pixel[0], pixel[1], pixel[2]))
    }
}

} // verus!
