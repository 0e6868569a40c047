use vstd::prelude::*;

use crate::color::{transparent_color, Rgba};
use crate::compositor::{apply_spec, BlendMode, Canvas, CompositeError, Compositor};
use crate::layer::{Layer, PixelProvider, Scale, Transform};
use crate::rendering::Drawable;

verus! {

/// Border styles of a rectangle.
#[derive(Clone, Copy, Debug, PartialEq, Eq, Structural)]
pub enum BorderType {
    Solid,
    Dashed,
}

/// The border drawn along the inside of a rectangle's edges.
#[derive(Clone, Copy, Debug)]
pub struct Border {
    pub thickness: u8,
    pub color: Rgba,
    pub type_: BorderType,
}

/// The border used when none is given: ten pixels of translucent grey.
pub open spec fn default_border() -> Border {
    Border { thickness: 10, color: Rgba { r: 100, g: 100, b: 100, a: 100 }, type_: BorderType::Solid }
}

impl Default for Border {
    fn default() -> (b: Border)
        ensures
            b == default_border(),
    {
        Border { thickness: 10, color: Rgba::new(100, 100, 100, 100), type_: BorderType::Solid }
    }
}

/// An axis-aligned rectangle `[x1, x2) x [y1, y2)`; as a pixel source it is
/// either filled or drawn as a border.
#[derive(Clone, Copy, Debug)]
pub struct Rectangle {
    pub x1: u32,
    pub y1: u32,
    pub x2: u32,
    pub y2: u32,
    pub width: u32,
    pub height: u32,
    pub border: Option<Border>,
    pub filled: bool,
    pub fill_color: Option<Rgba>,
}

/// The color of a filled rectangle that was given no fill color.
pub open spec fn default_fill() -> Rgba {
    Rgba { r: 0, g: 0, b: 0, a: 255 }
}

/// A bare region `[x1, x1 + width) x [y1, y1 + height)` with no border and no fill.
pub open spec fn region(x1: int, y1: int, width: int, height: int) -> Rectangle {
    Rectangle {
        x1: x1 as u32,
        y1: y1 as u32,
        x2: (x1 + width) as u32,
        y2: (y1 + height) as u32,
        width: width as u32,
        height: height as u32,
        border: None,
        filled: false,
        fill_color: None,
    }
}

impl Rectangle {
    /// The width and height agree with the corners.
    pub open spec fn wf(&self) -> bool {
        &&& self.x1 + self.width == self.x2
        &&& self.y1 + self.height == self.y2
    }

    /// The color at content-local `(x, y)`, for `x < width` and `y < height`.
    pub open spec fn color_at(&self, x: int, y: int) -> Rgba {
        if self.filled {
            match self.fill_color {
                Some(c) => c,
                None => default_fill(),
            }
        } else {
            match self.border {
                Some(b) => if x < b.thickness || x + b.thickness >= self.width || y < b.thickness
                    || y + b.thickness >= self.height {
                    b.color
                } else {
                    transparent_color()
                },
                None => transparent_color(),
            }
        }
    }

    /// A filled rectangle with the default border, from its corners.
    pub fn new(x1: u32, y1: u32, x2: u32, y2: u32) -> (r: Rectangle)
        requires
            x1 <= x2,
            y1 <= y2,
        ensures
            r.wf(),
            r.x1 == x1 && r.y1 == y1 && r.x2 == x2 && r.y2 == y2,
            r.border == Some(default_border()),
            r.filled,
            r.fill_color.is_none(),
    {
        Rectangle {
            x1,
            y1,
            x2,
            y2,
            border: Some(Border::default()),
            filled: true,
            width: x2 - x1,
            height: y2 - y1,
            fill_color: None,
        }
    }

    /// A filled rectangle with the default border, from its corner and size.
    pub fn from_xywh(x: u32, y: u32, width: u32, height: u32) -> (r: Rectangle)
        requires
            x + width <= u32::MAX,
            y + height <= u32::MAX,
        ensures
            r.wf(),
            r.x1 == x && r.y1 == y && r.width == width && r.height == height,
            r.border == Some(default_border()),
            r.filled,
            r.fill_color.is_none(),
    {
        Rectangle {
            x1: x,
            y1: y,
            x2: x + width,
            y2: y + height,
            border: Some(Border::default()),
            filled: true,
            width,
            height,
            fill_color: None,
        }
    }

    /// The same rectangle filled with `fill_color`, keeping its border or
    /// taking the default one.
    pub fn filled(&self, fill_color: Rgba) -> (r: Rectangle)
        ensures
            r.x1 == self.x1 && r.y1 == self.y1 && r.x2 == self.x2 && r.y2 == self.y2,
            r.width == self.width && r.height == self.height,
            r.border == Some(
                match self.border {
                    Some(b) => b,
                    None => default_border(),
                },
            ),
            r.filled,
            r.fill_color == Some(fill_color),
    {
        let border = match self.border {
            Some(b) => b,
            None => Border::default(),
        };
        Rectangle {
            x1: self.x1,
            y1: self.y1,
            x2: self.x2,
            y2: self.y2,
            border: Some(border),
            filled: true,
            width: self.width,
            height: self.height,
            fill_color: Some(fill_color),
        }
    }
}

impl PixelProvider for Rectangle {
    open spec fn content_pixel(&self, x: int, y: int) -> Rgba {
        self.color_at(x, y)
    }

    open spec fn content_width(&self) -> u32 {
        self.width
    }

    open spec fn content_height(&self) -> u32 {
        self.height
    }

    fn pixel_at(&self, x: u32, y: u32) -> (c: Rgba) {
        if self.filled {
            return match self.fill_color {
                Some(c) => c,
                None => Rgba::new(0, 0, 0, 255),
            };
        }
        if let Some(border) = &self.border {
            let t = border.thickness as u64;
            let x = x as u64;
            let y = y as u64;
            if x < t || x + t >= self.width as u64 || y < t || y + t >= self.height as u64 {
                return border.color;
            }
        }
        Rgba::transparent()
    }

    fn width(&self) -> (w: u32) {
        self.width
    }

    fn height(&self) -> (h: u32) {
        self.height
    }
}

impl Rectangle {
    /// The layer that places this rectangle at its own top-left corner.
    pub open spec fn to_layer_spec(&self) -> Layer<Rectangle> {
        Layer {
            content: *self,
            position: (self.x1 as i64, self.y1 as i64),
            z_index: 0,
            opacity: 255,
            blend_mode: BlendMode::Normal,
            transform: Transform {
                translate_x: 0,
                translate_y: 0,
                scale_x: Scale { num: 1, den: 1 },
                scale_y: Scale { num: 1, den: 1 },
                rotation: 0,
            },
            visible: true,
            clip_mask: None,
            last_render_hash: 0,
        }
    }

    /// Wraps the rectangle in a visible, opaque layer at its top-left corner,
    /// with blend mode Normal and no transform.
    pub fn to_layer(&self) -> (l: Layer<Rectangle>)
        ensures
            l == self.to_layer_spec(),
    {
        Layer {
            content: *self,
            position: (self.x1 as i64, self.y1 as i64),
            z_index: 0,
            opacity: 255,
            blend_mode: BlendMode::Normal,
            transform: Transform::identity(),
            visible: true,
            clip_mask: None,
            last_render_hash: 0,
        }
    }
}

impl Drawable for Rectangle {
    open spec fn drawn(&self, before: Seq<u8>, width: int, height: int) -> Seq<u8> {
        let layer = self.to_layer_spec();
        apply_spec(before, width, height, layer.changes_spec(None), layer.blend_mode)
    }

    /// Diffs the rectangle's layer against nothing and composites every
    /// delta onto the canvas.
    fn draw(&self, canvas: &mut Canvas) -> (r: Result<(), CompositeError>) {
        let layer = self.to_layer();
        let delta = layer.collect_changes(None);
        Compositor::apply(canvas, &delta, layer.blend_mode)
    }
}

} // verus!
