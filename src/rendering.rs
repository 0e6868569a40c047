use vstd::prelude::*;

use crate::compositor::{Canvas, CompositeError};

verus! {

/// Something that can draw itself onto a canvas.
pub trait Drawable {
    /// The pixel buffer of a `width` x `height` canvas after drawing onto `before`.
    spec fn drawn(&self, before: Seq<u8>, width: int, height: int) -> Seq<u8>;

    /// Draws onto the canvas; fails, leaving it untouched, when its buffer
    /// does not match its size.
    fn draw(&self, canvas: &mut Canvas) -> (r: Result<(), CompositeError>)
        ensures
            final(canvas).width == old(canvas).width,
            final(canvas).height == old(canvas).height,
            r.is_ok() <==> old(canvas).wf(),
            r.is_err() ==> r == Err::<(), CompositeError>(CompositeError::BufferSizeMismatch)
                && *final(canvas) == *old(canvas),
            r.is_ok() ==> final(canvas).pixels@ == self.drawn(
                old(canvas).pixels@,
                old(canvas).width as int,
                old(canvas).height as int,
            ),
    ;
}

/// Owns a canvas and draws onto it.
pub struct ImageWrapper {
    image: Canvas,
}

impl ImageWrapper {
    pub closed spec fn image_spec(&self) -> Canvas {
        self.image
    }

    pub fn new(image: Canvas) -> (w: ImageWrapper)
        ensures
            w.image_spec() == image,
    {
        ImageWrapper { image }
    }

    /// Draws `drawable` onto the wrapped canvas.
    pub fn draw<T: Drawable>(&mut self, drawable: &T) -> (r: Result<(), CompositeError>)
        ensures
            final(self).image_spec().width == old(self).image_spec().width,
            final(self).image_spec().height == old(self).image_spec().height,
            r.is_ok() <==> old(self).image_spec().wf(),
            r.is_err() ==> final(self).image_spec() == old(self).image_spec(),
            r.is_ok() ==> final(self).image_spec().pixels@ == drawable.drawn(
                old(self).image_spec().pixels@,
                old(self).image_spec().width as int,
                old(self).image_spec().height as int,
            ),
    {
        drawable.draw(&mut self.image)
    }

    pub fn get_image(&self) -> (c: &Canvas)
        ensures
            *c == self.image_spec(),
    {
        &self.image
    }
}

} // verus!
