use vstd::prelude::*;
use image::{ImageBuffer, Pixel, Rgb};
use crate::color::Color;

verus! {

/// An 8-bit RGB image that frames are rendered into, kept in an
/// `image::ImageBuffer`. Verus does not accept a declaration of that type
/// (its pixel bound is a trait of the `image` crate), so the buffer is held
/// here and read through `canvas_samples` and `canvas_dims`.
#[verifier::external_body]
pub struct Canvas {
    img: ImageBuffer<Rgb<u8>, Vec<u8>>,
}

/// The raw samples of a canvas: row-major, three per pixel (red, green, blue).
pub uninterp spec fn canvas_samples(c: Canvas) -> Seq<u8>;

/// The width and height a canvas was created with.
pub uninterp spec fn canvas_dims(c: Canvas) -> (nat, nat);

/// Index of the first sample of pixel `(x, y)` in a row-major buffer of width `w`.
pub open spec fn sample_index(w: nat, x: nat, y: nat) -> int {
    (3 * (y * w + x)) as int
}

/// The color stored at pixel number `p` (row-major) of a sample sequence.
pub open spec fn pixel_at(s: Seq<u8>, p: int) -> Color {
    Color { r: s[3 * p], g: s[3 * p + 1], b: s[3 * p + 2] }
}

impl Canvas {
    pub open spec fn width(self) -> nat {
        canvas_dims(self).0
    }

    pub open spec fn height(self) -> nat {
        canvas_dims(self).1
    }

    /// Relies on `ImageBuffer::new`: a `width` x `height` buffer whose samples
    /// are all zero. It panics only when `3 * width * height` overflows `usize`.
    #[verifier::external_body]
    pub(crate) fn blank(width: u32, height: u32) -> (c: Canvas)
        requires
            3 * width * height <= usize::MAX,
        ensures
            canvas_dims(c) == (width as nat, height as nat),
            canvas_samples(c) == Seq::new((3 * width * height) as nat, |i: int| 0u8),
    {
        Canvas { img: ImageBuffer::new(width, height) }
    }

    /// Relies on `ImageBuffer::get_pixel_mut` (it panics only out of bounds)
    /// and on `Pixel::blend` for `Rgb`, which replaces the pixel by the color.
    #[verifier::external_body]
    pub(crate) fn blend_pixel(&mut self, x: u32, y: u32, c: Color)
        requires
            (x as nat) < old(self).width(),
            (y as nat) < old(self).height(),
        ensures
            canvas_dims(*final(self)) == canvas_dims(*old(self)),
            canvas_samples(*final(self)) == canvas_samples(*old(self)).update(
                sample_index(old(self).width(), x as nat, y as nat),
                c.r,
            ).update(sample_index(old(self).width(), x as nat, y as nat) + 1, c.g).update(
                sample_index(old(self).width(), x as nat, y as nat) + 2,
                c.b,
            ),
    {
        self.img.get_pixel_mut(x, y).blend(&Rgb([c.r, c.g, c.b]));
    }

    /// Relies on `ImageBuffer::into_raw`, which hands back the sample buffer.
    #[verifier::external_body]
    pub(crate) fn into_raw(self) -> (v: Vec<u8>)
        ensures
            v@ == canvas_samples(self),
    {
        self.img.into_raw()
    }
}

} // verus!
