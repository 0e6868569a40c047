use vstd::prelude::*;

use crate::compositor::{Canvas, CompositeError};
use crate::rectangle::Rectangle;
use crate::rendering::{Drawable, ImageWrapper};

verus! {

/// Builds an image by drawing shapes onto a canvas, one after another.
pub struct ImageBuilder {
    content: ImageWrapper,
}

impl ImageBuilder {
    /// The canvas built so far.
    pub closed spec fn canvas_spec(&self) -> Canvas {
        self.content.image_spec()
    }

    /// A builder over a fully transparent `width` x `height` canvas; fails
    /// when such a canvas is too large to allocate.
    pub fn new(width: u32, height: u32) -> (r: Result<ImageBuilder, CompositeError>)
        ensures
            match r {
                Ok(b) => {
                    &&& b.canvas_spec().width == width
                    &&& b.canvas_spec().height == height
                    &&& b.canvas_spec().wf()
                    &&& forall|i: int|
                        0 <= i < b.canvas_spec().pixels@.len() ==> b.canvas_spec().pixels@[i] == 0
                },
                Err(e) => e == CompositeError::TooLarge && 4 * width * height > usize::MAX,
            },
    {
        match Canvas::new(width, height) {
            Ok(c) => Ok(ImageBuilder { content: ImageWrapper::new(c) }),
            Err(e) => Err(e),
        }
    }

    /// A builder that draws onto an existing canvas.
    pub fn from_image(image: Canvas) -> (b: ImageBuilder)
        ensures
            b.canvas_spec() == image,
    {
        ImageBuilder { content: ImageWrapper::new(image) }
    }

    /// Draws `rectangle` onto the canvas (see `Drawable`).
    pub fn add_rectangle(&mut self, rectangle: Rectangle) -> (r: Result<(), CompositeError>)
        ensures
            final(self).canvas_spec().width == old(self).canvas_spec().width,
            final(self).canvas_spec().height == old(self).canvas_spec().height,
            r.is_ok() <==> old(self).canvas_spec().wf(),
            r.is_err() ==> final(self).canvas_spec() == old(self).canvas_spec(),
            r.is_ok() ==> final(self).canvas_spec().pixels@ == rectangle.drawn(
                old(self).canvas_spec().pixels@,
                old(self).canvas_spec().width as int,
                old(self).canvas_spec().height as int,
            ),
    {
        self.content.draw(&rectangle)
    }

    pub fn get_image(&self) -> (c: &Canvas)
        ensures
            *c == self.canvas_spec(),
    {
        self.content.get_image()
    }
}

impl Default for ImageBuilder {
    /// A builder over a transparent 1000 x 1000 canvas.
    fn default() -> (b: ImageBuilder)
        ensures
            b.canvas_spec().width == 1000,
            b.canvas_spec().height == 1000,
            b.canvas_spec().wf(),
            forall|i: int| 0 <= i < b.canvas_spec().pixels@.len() ==> b.canvas_spec().pixels@[i] == 0,
    {
        match ImageBuilder::new(1000, 1000) {
            Ok(b) => b,
            Err(_) => {
                // Four million bytes fit in any address space Rust supports.
                proof {
                    assert(4 * 1000 * 1000 <= usize::MAX);
                    assert(false);
                }
                ImageBuilder::from_image(Canvas { width: 1000, height: 1000, pixels: Vec::new() })
            },
        }
    }
}

} // verus!
