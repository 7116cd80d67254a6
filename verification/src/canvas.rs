//! The output canvas: an RGBA image of the `image` crate.
use crate::grid::lemma_row_major;
use vstd::prelude::*;

verus! {

/// One pixel: red, green, blue and alpha.
pub type Rgba = (u8, u8, u8, u8);

/// An RGBA pixel buffer of fixed width and height, held as an
/// `image::RgbaImage`. Its contents are known to the verifier only through
/// [`canvas_dimensions`] and [`canvas_pixels`].
#[verifier::external_body]
pub struct Canvas {
    image: image::RgbaImage,
}

/// The width and the height of a canvas, in pixels.
pub uninterp spec fn canvas_dimensions(canvas: Canvas) -> (nat, nat);

/// The pixels of a canvas, row by row from the top, each row from the left.
pub uninterp spec fn canvas_pixels(canvas: Canvas) -> Seq<Rgba>;

impl Canvas {
    /// `ImageBuffer::from_pixel`: a new image of the given size with every
    /// pixel set to `pixel`. It panics where the buffer of four bytes a pixel
    /// is larger than a vector can be, which is left out.
    #[verifier::external_body]
    pub(crate) fn filled(width: u32, height: u32, pixel: Rgba) -> (canvas: Canvas)
        requires
            4 * width * height <= isize::MAX,
        ensures
            canvas_dimensions(canvas) == (width as nat, height as nat),
            canvas_pixels(canvas) == Seq::new((width * height) as nat, |i: int| pixel),
    {
        let rgba = image::Rgba([pixel.0, pixel.1, pixel.2, pixel.3]);
        Canvas { image: image::ImageBuffer::from_pixel(width, height, rgba) }
    }

    /// `ImageBuffer::dimensions`: the width and the height. The buffer holds
    /// one pixel for each position.
    #[verifier::external_body]
    pub(crate) fn dimensions(&self) -> (size: (u32, u32))
        ensures
            (size.0 as nat, size.1 as nat) == canvas_dimensions(*self),
            canvas_pixels(*self).len() == size.0 * size.1,
    {
        self.image.dimensions()
    }

    /// `ImageBuffer::put_pixel`: overwrites the pixel in column `x` of row
    /// `y` and nothing else. It panics on a position outside the image, which
    /// is left out.
    #[verifier::external_body]
    pub(crate) fn put(&mut self, x: u32, y: u32, pixel: Rgba)
        requires
            x < canvas_dimensions(*old(self)).0,
            y < canvas_dimensions(*old(self)).1,
        ensures
            canvas_dimensions(*final(self)) == canvas_dimensions(*old(self)),
            canvas_pixels(*final(self)) == canvas_pixels(*old(self)).update(
                y * canvas_dimensions(*old(self)).0 + x,
                pixel,
            ),
    {
        self.image.put_pixel(x, y, image::Rgba([pixel.0, pixel.1, pixel.2, pixel.3]));
    }

    /// `ImageBuffer::get_pixel`: the pixel in column `x` of row `y`. It
    /// panics on a position outside the image, which is left out.
    #[verifier::external_body]
    pub(crate) fn get(&self, x: u32, y: u32) -> (pixel: Rgba)
        requires
            x < canvas_dimensions(*self).0,
            y < canvas_dimensions(*self).1,
        ensures
            pixel == canvas_pixels(*self)[y * canvas_dimensions(*self).0 + x],
    {
        let rgba = self.image.get_pixel(x, y);
        (rgba.0[0], rgba.0[1], rgba.0[2], rgba.0[3])
    }

    /// The pixel in column `x` of row `y`, where the canvas has one.
    pub fn pixel(&self, x: u32, y: u32) -> (pixel: Option<Rgba>)
        ensures
            pixel is Some <==> x < canvas_dimensions(*self).0 && y < canvas_dimensions(*self).1,
            pixel matches Some(p) ==> p == canvas_pixels(*self)[y * canvas_dimensions(*self).0
                + x],
    {
        let (width, height) = self.dimensions();
        if x < width && y < height {
            Some(self.get(x, y))
        } else {
            None
        }
    }

    /// The canvas as bytes: four for each pixel, red first, pixel after pixel
    /// and row after row.
    pub fn to_rgba_bytes(&self) -> (bytes: Vec<u8>)
        ensures
            bytes@ == flattened(canvas_pixels(*self)),
    {
        let (width, height) = self.dimensions();
        let mut bytes: Vec<u8> = Vec::new();
        let mut y: u32 = 0;
        while y < height
            invariant
                y <= height,
                (width as nat, height as nat) == canvas_dimensions(*self),
                canvas_pixels(*self).len() == width * height,
                bytes@.len() == 4 * (y * width),
                forall|j: int|
                    0 <= j < bytes@.len() ==> bytes@[j] == channel(
                        #[trigger] canvas_pixels(*self)[j / 4],
                        j % 4,
                    ),
            decreases height - y,
        {
            let mut x: u32 = 0;
            while x < width
                invariant
                    x <= width,
                    y < height,
                    (width as nat, height as nat) == canvas_dimensions(*self),
                    canvas_pixels(*self).len() == width * height,
                    bytes@.len() == 4 * (y * width + x),
                    forall|j: int|
                        0 <= j < bytes@.len() ==> bytes@[j] == channel(
                            #[trigger] canvas_pixels(*self)[j / 4],
                            j % 4,
                        ),
                decreases width - x,
            {
                let pixel: Rgba = self.get(x, y);
                proof {
                    lemma_row_major(y as int, x as int, width as int, height as int);
                }
                bytes.push(pixel.0);
                bytes.push(pixel.1);
                bytes.push(pixel.2);
                bytes.push(pixel.3);
                x += 1;
            }
            proof {
                assert(y * width + width == (y + 1) * width) by (nonlinear_arith);
            }
            y += 1;
        }
        proof {
            assert(height * width == width * height) by (nonlinear_arith);
            assert(bytes@ =~= flattened(canvas_pixels(*self)));
        }
        bytes
    }
}

/// Channel `c` of a pixel: red, green, blue, alpha.
pub open spec fn channel(pixel: Rgba, c: int) -> u8 {
    if c == 0 {
        pixel.0
    } else if c == 1 {
        pixel.1
    } else if c == 2 {
        pixel.2
    } else {
        pixel.3
    }
}

/// The pixels as bytes, four for each pixel.
pub open spec fn flattened(pixels: Seq<Rgba>) -> Seq<u8> {
    Seq::new(4 * pixels.len(), |j: int| channel(pixels[j / 4], j % 4))
}

} // verus!
