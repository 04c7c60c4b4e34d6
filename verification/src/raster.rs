//! The output raster: which pixel a buffer slot belongs to, which way a
//! pixel looks, and how the frame is laid out in bytes.
//!
//! Pixels are numbered row by row from the top left.  A frame holds the four
//! bytes of each pixel, in the same order.

use vstd::prelude::*;
use crate::color::{pixel_of, to_pixel_color};

verus! {

/// Bytes that one pixel takes in a frame.
pub const BYTES_PER_PIXEL: usize = 4;

/// A direction in the camera's own frame, in whole units: `x` points forward,
/// `y` up the screen and `z` to its left.  Only the direction counts, not the length.
#[derive(Clone, Copy, Debug, PartialEq, Eq, Structural)]
pub struct PixelRay {
    pub x: i64,
    pub y: i64,
    pub z: i64,
}

/// The direction in which the pixel in column `x` and row `y` of a raster of
/// `width` by `height` pixels looks.  The screen stands one unit in front of
/// the eye and is one unit high, so that a ray through the pixel's corner is
/// `(1, 1/2 - y/height, (width/2 - x)/height)`; this is that vector times
/// `2 * height`.  A step of one pixel turns the ray by the same amount along
/// either screen axis, whatever the raster's aspect ratio.
pub open spec fn pixel_ray(width: int, height: int, x: int, y: int) -> PixelRay {
    PixelRay { x: (2 * height) as i64, y: (height - 2 * y) as i64, z: (width - 2 * x) as i64 }
}

/// The pixel to which byte `byte` of a frame belongs.
pub open spec fn pixel_of_byte(byte: int) -> int {
    byte / 4
}

/// The bytes of a frame that holds `pixels`, one after the other.
pub open spec fn frame_of(pixels: Seq<[u8; 4]>) -> Seq<u8> {
    Seq::new(4 * pixels.len(), |b: int| pixels[b / 4][b % 4])
}

/// The bytes of the frame that shows an image, given as the colour of each
/// pixel: for each pixel its red, green and blue bytes and an opaque alpha.
pub open spec fn image_of(colors: Seq<[u32; 3]>) -> Seq<u8> {
    Seq::new(4 * colors.len(), |b: int| pixel_of(colors[b / 4])[b % 4])
}

/// The dimensions of the output image.
#[derive(Clone, Copy, Debug)]
pub struct Raster {
    width: u32,
    height: u32,
}

impl Raster {
    #[verifier::type_invariant]
    spec fn well_formed(self) -> bool {
        Self::fits(self.width, self.height)
    }

    /// Whether a raster of these dimensions can be had: it holds a pixel, and
    /// the length of its frame is a `usize`.
    pub open spec fn fits(width: u32, height: u32) -> bool {
        width > 0 && height > 0 && 4 * (width * height) <= usize::MAX
    }

    /// Number of columns.
    pub closed spec fn columns(self) -> int {
        self.width as int
    }

    /// Number of rows.
    pub closed spec fn rows(self) -> int {
        self.height as int
    }

    /// Number of pixels.
    pub open spec fn pixels(self) -> int {
        self.columns() * self.rows()
    }

    /// A raster of `width` by `height` pixels, or `None` where `fits` does not hold.
    pub fn new(width: u32, height: u32) -> (r: Option<Raster>)
        ensures
            r is Some <==> Self::fits(width, height),
            r matches Some(raster) ==> raster.columns() == width && raster.rows() == height,
    {
        if width == 0 || height == 0 {
            return None;
        }
        proof {
            assert(width * height <= 0xffff_ffff * 0xffff_ffff) by (nonlinear_arith)
                requires
                    width <= 0xffff_ffff,
                    height <= 0xffff_ffff,
            ;
        }
        let bytes: u128 = 4 * (width as u128 * height as u128);
        if bytes > usize::MAX as u128 {
            return None;
        }
        Some(Raster { width, height })
    }

    /// Number of columns.
    pub fn width(&self) -> (w: u32)
        ensures
            w == self.columns(),
            w > 0,
    {
        proof {
            use_type_invariant(self);
        }
        self.width
    }

    /// Number of rows.
    pub fn height(&self) -> (h: u32)
        ensures
            h == self.rows(),
            h > 0,
    {
        proof {
            use_type_invariant(self);
        }
        self.height
    }

    /// Number of pixels.
    pub fn pixel_count(&self) -> (n: usize)
        ensures
            n == self.pixels(),
            n > 0,
    {
        proof {
            use_type_invariant(self);
            assert(self.width * self.height > 0) by (nonlinear_arith)
                requires
                    self.width > 0,
                    self.height > 0,
            ;
        }
        self.width as usize * self.height as usize
    }

    /// Length of a frame in bytes: four for each pixel.
    pub fn frame_len(&self) -> (n: usize)
        ensures
            n == 4 * self.pixels(),
    {
        proof {
            use_type_invariant(self);
        }
        BYTES_PER_PIXEL * self.pixel_count()
    }

    /// Column and row of pixel `index`, or `None` when the raster has no such pixel.
    pub fn coords(&self, index: usize) -> (r: Option<(u32, u32)>)
        ensures
            r is Some <==> index < self.pixels(),
            r matches Some((x, y)) ==> ({
                &&& x < self.columns()
                &&& y < self.rows()
                &&& x == index as int % self.columns()
                &&& y == index as int / self.columns()
                &&& index == y * self.columns() + x
            }),
    {
        proof {
            use_type_invariant(self);
        }
        if index >= self.pixel_count() {
            return None;
        }
        let w = self.width as usize;
        let x = index % w;
        let y = index / w;
        proof {
            let (i, wi, hi) = (index as int, self.width as int, self.height as int);
            assert(i == wi * (i / wi) + i % wi) by (nonlinear_arith)
                requires
                    wi > 0,
            ;
            assert(i / wi < hi) by (nonlinear_arith)
                requires
                    wi > 0,
                    0 <= i < wi * hi,
                    i == wi * (i / wi) + i % wi,
                    0 <= i % wi,
            ;
            assert(wi * (i / wi) == (i / wi) * wi) by (nonlinear_arith);
        }
        Some((x as u32, y as u32))
    }

    /// Index of the pixel in column `x` and row `y`, or `None` when the raster
    /// has no such pixel.
    pub fn index_of(&self, x: u32, y: u32) -> (r: Option<usize>)
        ensures
            r is Some <==> x < self.columns() && y < self.rows(),
            r matches Some(index) ==> index == y * self.columns() + x && index < self.pixels(),
    {
        proof {
            use_type_invariant(self);
        }
        if x >= self.width || y >= self.height {
            return None;
        }
        proof {
            let (xi, yi, wi, hi) = (x as int, y as int, self.width as int, self.height as int);
            assert(yi * wi + xi < wi * hi) by (nonlinear_arith)
                requires
                    0 <= xi < wi,
                    0 <= yi < hi,
            ;
            assert(0 <= yi * wi) by (nonlinear_arith)
                requires
                    0 <= yi,
                    0 <= wi,
            ;
        }
        Some(y as usize * self.width as usize + x as usize)
    }

    /// The direction in which the pixel in column `x` and row `y` looks, in
    /// the camera's frame, or `None` when the raster has no such pixel.  The
    /// direction points forward and is never the zero vector.
    pub fn ray(&self, x: u32, y: u32) -> (r: Option<PixelRay>)
        ensures
            r is Some <==> x < self.columns() && y < self.rows(),
            r matches Some(ray) ==> ({
                &&& ray == pixel_ray(self.columns(), self.rows(), x as int, y as int)
                &&& ray.x == 2 * self.rows()
                &&& ray.y == self.rows() - 2 * y
                &&& ray.z == self.columns() - 2 * x
                &&& ray.x >= 2
            }),
    {
        if x >= self.width || y >= self.height {
            return None;
        }
        proof {
            use_type_invariant(self);
        }
        Some(
            PixelRay {
                x: 2 * self.height as i64,
                y: self.height as i64 - 2 * y as i64,
                z: self.width as i64 - 2 * x as i64,
            },
        )
    }

    /// The frame that shows an image, where `colors[i]` holds the red, green
    /// and blue channels of pixel `i` as bit patterns.  Returns `None` unless
    /// there is one colour for each pixel of the raster.
    pub fn render(&self, colors: &Vec<[u32; 3]>) -> (r: Option<Vec<u8>>)
        ensures
            r is Some <==> colors@.len() == self.pixels(),
            r matches Some(bytes) ==> bytes@ == image_of(colors@),
    {
        let mut pixels: Vec<[u8; 4]> = Vec::new();
        let mut i: usize = 0;
        while i < colors.len()
            invariant
                i <= colors.len(),
                pixels@.len() == i,
                forall|j: int| 0 <= j < i ==> (#[trigger] pixels@[j])@ == pixel_of(colors@[j]),
            decreases colors.len() - i,
        {
            pixels.push(to_pixel_color(colors[i]));
            i += 1;
        }
        let frame = self.frame(&pixels);
        proof {
            if frame is Some {
                let bytes = frame.unwrap()@;
                assert forall|b: int| 0 <= b < bytes.len() implies bytes[b] == image_of(
                    colors@,
                )[b] by {
                    assert(pixels@[b / 4]@[b % 4] == pixel_of(colors@[b / 4])[b % 4]);
                }
                assert(bytes == image_of(colors@));
            }
        }
        frame
    }

    /// The frame that holds `pixels`, where `pixels[i]` holds the four bytes
    /// of pixel `i`.  Returns `None` unless there is one entry for each pixel
    /// of the raster.
    pub fn frame(&self, pixels: &Vec<[u8; 4]>) -> (r: Option<Vec<u8>>)
        ensures
            r is Some <==> pixels@.len() == self.pixels(),
            r matches Some(bytes) ==> bytes@ == frame_of(pixels@),
    {
        proof {
            use_type_invariant(self);
        }
        if pixels.len() != self.pixel_count() {
            return None;
        }
        let mut bytes: Vec<u8> = Vec::new();
        let mut i: usize = 0;
        while i < pixels.len()
            invariant
                i <= pixels.len(),
                bytes@ == frame_of(pixels@.take(i as int)),
            decreases pixels.len() - i,
        {
            let pixel = pixels[i];
            let ghost before = bytes@;
            bytes.push(pixel[0]);
            bytes.push(pixel[1]);
            bytes.push(pixel[2]);
            bytes.push(pixel[3]);
            proof {
                let next = frame_of(pixels@.take(i + 1));
                assert(bytes@.len() == next.len());
                assert forall|b: int| 0 <= b < next.len() implies bytes@[b] == next[b] by {
                    if b < 4 * i {
                        assert(bytes@[b] == before[b]);
                        assert(pixels@.take(i as int)[b / 4] == pixels@.take(i + 1)[b / 4]);
                    } else {
                        assert(b / 4 == i);
                        assert(pixels@.take(i + 1)[b / 4] == pixel);
                    }
                }
                assert(bytes@ == next);
            }
            i += 1;
        }
        proof {
            assert(pixels@.take(i as int) == pixels@);
        }
        Some(bytes)
    }
}

/// Numbering the pixels row by row loses nothing: the pixel in column `x` and
/// row `y` has the index from which `coords` gives `x` and `y` back.
pub proof fn lemma_coords_of_index(width: int, x: int, y: int)
    requires
        0 <= x < width,
        0 <= y,
    ensures
        (y * width + x) % width == x,
        (y * width + x) / width == y,
{
    vstd::arithmetic::div_mod::lemma_fundamental_div_mod_converse(y * width + x, width, y, x);
}

/// The bytes of two different pixels do not overlap, and each pixel's four
/// bytes lie inside the frame: a pass over the pixels writes every byte of
/// the frame once.
pub proof fn lemma_slots_disjoint(pixels: int, i: int, j: int)
    requires
        0 <= i < pixels,
        0 <= j < pixels,
        i != j,
    ensures
        4 * i + 4 <= 4 * pixels,
        4 * i + 4 <= 4 * j || 4 * j + 4 <= 4 * i,
        forall|b: int|
            0 <= b < 4 * pixels ==> (4 * i <= b < 4 * i + 4 <==> #[trigger] pixel_of_byte(b) == i),
{
}

/// A pixel's bytes in the frame are its own and depend on no other pixel:
/// the frame of a whole image holds, at pixel `i`, the four bytes of
/// `pixels[i]`, whatever the other pixels are and in whatever order they
/// were computed.
pub proof fn lemma_frame_pixel(pixels: Seq<[u8; 4]>, i: int)
    requires
        0 <= i < pixels.len(),
    ensures
        frame_of(pixels).subrange(4 * i, 4 * i + 4) == pixels[i]@,
{
    let whole = frame_of(pixels).subrange(4 * i, 4 * i + 4);
    assert forall|b: int| 0 <= b < 4 implies whole[b] == pixels[i]@[b] by {
        assert((4 * i + b) / 4 == i);
        assert((4 * i + b) % 4 == b);
    }
    assert(whole == pixels[i]@);
}

/// In the frame of an image, the bytes of a pixel show that pixel's colour
/// and nothing else: they are the same whatever the colours of the other
/// pixels are, and in whatever order, or on however many workers, the
/// colours were computed.
pub proof fn lemma_image_pixel(colors: Seq<[u32; 3]>, i: int)
    requires
        0 <= i < colors.len(),
    ensures
        image_of(colors).subrange(4 * i, 4 * i + 4) == pixel_of(colors[i]),
{
    let whole = image_of(colors).subrange(4 * i, 4 * i + 4);
    assert forall|b: int| 0 <= b < 4 implies whole[b] == pixel_of(colors[i])[b] by {
        assert((4 * i + b) / 4 == i);
        assert((4 * i + b) % 4 == b);
    }
    assert(whole == pixel_of(colors[i]));
}

} // verus!
