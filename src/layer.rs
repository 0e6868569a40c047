use vstd::prelude::*;
use vstd::arithmetic::div_mod::{lemma_fundamental_div_mod, lemma_mod_pos_bound, lemma_multiply_divide_lt};

use crate::color::{transparent_color, Rgba};
use crate::compositor::BlendMode;
use crate::delta_buffer::{DeltaBuffer, PixelDelta};
use crate::rectangle::{region, Rectangle};

verus! {

/// Content that can answer what color each of its pixels is. Pixels are
/// addressed in content-local coordinates `[0, width) x [0, height)`, the
/// intrinsic size before any transform.
pub trait PixelProvider {
    /// The color at content-local `(x, y)`.
    spec fn content_pixel(&self, x: int, y: int) -> Rgba;

    spec fn content_width(&self) -> u32;

    spec fn content_height(&self) -> u32;

    fn pixel_at(&self, x: u32, y: u32) -> (c: Rgba)
        requires
            x < self.content_width(),
            y < self.content_height(),
        ensures
            c == self.content_pixel(x as int, y as int),
    ;

    fn width(&self) -> (w: u32)
        ensures
            w == self.content_width(),
    ;

    fn height(&self) -> (h: u32)
        ensures
            h == self.content_height(),
    ;
}

/// A per-pixel visibility mask over the rectangle `[x, x + width) x [y, y + height)`,
/// stored row by row, one alpha byte per pixel.
#[derive(Clone, Debug)]
pub struct ClipMask {
    pub x: u32,
    pub y: u32,
    pub width: u32,
    pub height: u32,
    pub mask_data: Vec<u8>,
}

impl ClipMask {
    pub open spec fn contains_spec(&self, x: int, y: int) -> bool {
        &&& self.x <= x < self.x + self.width
        &&& self.y <= y < self.y + self.height
    }

    /// Where `(x, y)` sits in `mask_data`.
    pub open spec fn index_of(&self, x: int, y: int) -> int {
        (y - self.y) * self.width + (x - self.x)
    }

    /// The mask byte at `(x, y)`; none outside the rectangle or past the end
    /// of the data.
    pub open spec fn value_spec(&self, x: int, y: int) -> Option<u8> {
        if self.contains_spec(x, y) && self.index_of(x, y) < self.mask_data@.len() {
            Some(self.mask_data@[self.index_of(x, y)])
        } else {
            None
        }
    }

    pub fn contains(&self, x: u32, y: u32) -> (r: bool)
        ensures
            r == self.contains_spec(x as int, y as int),
    {
        x >= self.x && (x as u64) < self.x as u64 + self.width as u64 && y >= self.y
            && (y as u64) < self.y as u64 + self.height as u64
    }

    pub fn value_at(&self, x: u32, y: u32) -> (r: Option<u8>)
        ensures
            r == self.value_spec(x as int, y as int),
    {
        if self.contains(x, y) {
            let dy = (y - self.y) as u64;
            let dx = (x - self.x) as u64;
            assert(dy * self.width <= u32::MAX * u32::MAX) by (nonlinear_arith)
                requires
                    dy <= u32::MAX,
                    self.width <= u32::MAX,
            ;
            let index = dy * self.width as u64 + dx;
            if index < self.mask_data.len() as u64 {
                Some(self.mask_data[index as usize])
            } else {
                None
            }
        } else {
            None
        }
    }
}

/// Why a layer cannot be rendered as configured.
#[derive(Clone, Copy, Debug, PartialEq, Eq, Structural)]
pub enum ConfigError {
    /// The scale along x is zero or has a zero denominator.
    ZeroScaleX,
    /// The scale along y is zero or has a zero denominator.
    ZeroScaleY,
    /// Rotation is not supported; only zero degrees is accepted.
    UnsupportedRotation,
}

/// A scale factor `num / den`.
#[derive(Clone, Copy, Debug, PartialEq, Eq, Structural)]
pub struct Scale {
    pub num: u32,
    pub den: u32,
}

impl Scale {
    /// Strictly positive, with a non-zero denominator.
    pub open spec fn valid(&self) -> bool {
        self.num > 0 && self.den > 0
    }

    /// The scale factor `n / 1`.
    pub fn whole(n: u32) -> (s: Scale)
        ensures
            s == (Scale { num: n, den: 1 }),
    {
        Scale { num: n, den: 1 }
    }

    /// How many canvas pixels `len` content pixels cover: `len * num / den`,
    /// rounded up.
    pub open spec fn extent(&self, len: int) -> int {
        (self.num * len + self.den - 1) / (self.den as int)
    }

    /// The content pixel that canvas offset `offset` falls on: `offset * den / num`,
    /// rounded down.
    pub open spec fn inverse(&self, offset: int) -> int {
        offset * self.den / (self.num as int)
    }

    fn extent_of(&self, len: u32) -> (r: u128)
        requires
            self.valid(),
        ensures
            r == self.extent(len as int),
            r <= u32::MAX * u32::MAX + u32::MAX,
    {
        let n = self.num as u128;
        let l = len as u128;
        assert(n * l <= u32::MAX * u32::MAX) by (nonlinear_arith)
            requires
                n <= u32::MAX,
                l <= u32::MAX,
        ;
        let a = n * l;
        proof {
            lemma_ceil_div(a as int, self.den as int);
        }
        (a + self.den as u128 - 1) / self.den as u128
    }

    fn inverse_of(&self, offset: u128) -> (r: u128)
        requires
            self.valid(),
            offset <= u64::MAX,
        ensures
            r == self.inverse(offset as int),
    {
        assert(offset * self.den <= u64::MAX * u32::MAX) by (nonlinear_arith)
            requires
                offset <= u64::MAX,
                self.den <= u32::MAX,
        ;
        offset * self.den as u128 / self.num as u128
    }
}

/// Maps content-local coordinates onto the canvas: canvas pixel
/// `translate + o` shows content pixel `o / scale`, rounded down, on each
/// axis. Rotation is in degrees.
#[derive(Clone, Copy, Debug)]
pub struct Transform {
    pub translate_x: i32,
    pub translate_y: i32,
    pub scale_x: Scale,
    pub scale_y: Scale,
    pub rotation: i32,
}

impl Transform {
    pub open spec fn valid(&self) -> bool {
        self.scale_x.valid() && self.scale_y.valid() && self.rotation == 0
    }

    pub open spec fn validation_spec(&self) -> Result<(), ConfigError> {
        if !self.scale_x.valid() {
            Err(ConfigError::ZeroScaleX)
        } else if !self.scale_y.valid() {
            Err(ConfigError::ZeroScaleY)
        } else if self.rotation != 0 {
            Err(ConfigError::UnsupportedRotation)
        } else {
            Ok(())
        }
    }

    /// No translation, unit scale, no rotation.
    pub fn identity() -> (t: Transform)
        ensures
            t == (Transform {
                translate_x: 0,
                translate_y: 0,
                scale_x: Scale { num: 1, den: 1 },
                scale_y: Scale { num: 1, den: 1 },
                rotation: 0,
            }),
    {
        Transform { translate_x: 0, translate_y: 0, scale_x: Scale::whole(1), scale_y: Scale::whole(1), rotation: 0 }
    }

    pub fn validate(&self) -> (r: Result<(), ConfigError>)
        ensures
            r == self.validation_spec(),
            r.is_ok() <==> self.valid(),
    {
        if self.scale_x.num == 0 || self.scale_x.den == 0 {
            Err(ConfigError::ZeroScaleX)
        } else if self.scale_y.num == 0 || self.scale_y.den == 0 {
            Err(ConfigError::ZeroScaleY)
        } else if self.rotation != 0 {
            Err(ConfigError::UnsupportedRotation)
        } else {
            Ok(())
        }
    }
}

/// What rounding up `a / d` gives: `q * d` reaches `a` and falls short of
/// `a + d`.
proof fn lemma_ceil_div(a: int, d: int)
    requires
        a >= 0,
        d > 0,
    ensures
        ({
            let q = (a + d - 1) / d;
            &&& 0 <= q <= a + d
            &&& a <= q * d < a + d
            &&& a >= 1 ==> q >= 1
        }),
{
    let x = a + d - 1;
    lemma_fundamental_div_mod(x, d);
    lemma_mod_pos_bound(x, d);
    let q = x / d;
    assert(0 <= q <= a + d && a <= q * d < a + d && (a >= 1 ==> q >= 1)) by (nonlinear_arith)
        requires
            x == d * q + x % d,
            0 <= x % d < d,
            x == a + d - 1,
            a >= 0,
            d > 0,
    ;
}

/// `v` limited to `[lo, hi]`, for `lo <= hi`.
pub open spec fn clamp(v: int, lo: int, hi: int) -> int {
    if v < lo {
        lo
    } else if v > hi {
        hi
    } else {
        v
    }
}

pub open spec fn min(a: int, b: int) -> int {
    if a <= b {
        a
    } else {
        b
    }
}

pub open spec fn max(a: int, b: int) -> int {
    if a >= b {
        a
    } else {
        b
    }
}

/// The largest canvas coordinate bound: canvas pixels have coordinates in
/// `[0, u32::MAX)`, so that every region edge fits in a `u32`.
pub open spec fn canvas_limit() -> int {
    u32::MAX as int
}

/// `alpha` scaled by `opacity`, where 255 stands for fully opaque.
pub open spec fn scaled_alpha(alpha: int, opacity: int) -> int {
    alpha * opacity / 255
}

/// A caller-kept record of where a layer was last rendered: its footprint,
/// one representative color for the pixels inside it, and its fingerprint.
#[derive(Clone, Copy, Debug)]
pub struct LayerState {
    pub x: u32,
    pub y: u32,
    pub width: u32,
    pub height: u32,
    pub color: Rgba,
    pub opacity: u8,
    pub z_index: i32,
    pub blend_mode: BlendMode,
    /// Fingerprint of the properties that affected the render.
    pub hash: u64,
}

impl LayerState {
    pub open spec fn covers(&self, x: int, y: int) -> bool {
        &&& self.x <= x < self.x + self.width
        &&& self.y <= y < self.y + self.height
    }

    /// The recorded color at `(x, y)`: the representative color inside the
    /// footprint, transparent outside.
    pub open spec fn pixel_spec(&self, x: int, y: int) -> Rgba {
        if self.covers(x, y) {
            self.color
        } else {
            transparent_color()
        }
    }

    pub open spec fn is_empty_area(&self) -> bool {
        self.width == 0 || self.height == 0
    }

    pub fn pixel_at(&self, x: u32, y: u32) -> (c: Rgba)
        ensures
            c == self.pixel_spec(x as int, y as int),
    {
        if x >= self.x && (x as u64) < self.x as u64 + self.width as u64 && y >= self.y
            && (y as u64) < self.y as u64 + self.height as u64 {
            self.color
        } else {
            Rgba::transparent()
        }
    }
}

/// A pixel source placed on the canvas, with its presentation state.
#[derive(Debug)]
pub struct Layer<T: PixelProvider> {
    pub content: T,
    /// Canvas position of the content's top-left corner, before the
    /// transform's translation is added.
    pub position: (i64, i64),
    /// Stacking order: layers are composited in ascending order.
    pub z_index: i32,
    /// 0 is fully transparent, 255 fully opaque.
    pub opacity: u8,
    pub blend_mode: BlendMode,
    pub transform: Transform,
    pub visible: bool,
    pub clip_mask: Option<ClipMask>,
    /// Fingerprint of the properties that affect rendering, kept up to date
    /// by the caller.
    pub last_render_hash: u64,
}

impl<T: PixelProvider> Layer<T> {
    pub open spec fn origin_x(&self) -> int {
        self.position.0 + self.transform.translate_x
    }

    pub open spec fn origin_y(&self) -> int {
        self.position.1 + self.transform.translate_y
    }

    /// Width on the canvas after scaling.
    pub open spec fn extent_x(&self) -> int {
        self.transform.scale_x.extent(self.content.content_width() as int)
    }

    pub open spec fn extent_y(&self) -> int {
        self.transform.scale_y.extent(self.content.content_height() as int)
    }

    fn extent(&self) -> (r: (u128, u128))
        requires
            self.transform.valid(),
        ensures
            r.0 == self.extent_x(),
            r.1 == self.extent_y(),
            r.0 <= u32::MAX * u32::MAX + u32::MAX,
            r.1 <= u32::MAX * u32::MAX + u32::MAX,
    {
        (
            self.transform.scale_x.extent_of(self.content.width()),
            self.transform.scale_y.extent_of(self.content.height()),
        )
    }

    /// The layer's source color at canvas `(x, y)`: the content pixel that
    /// the inverse transform lands on, with its alpha scaled by the opacity;
    /// transparent where it lands outside the content.
    pub open spec fn source_pixel(&self, x: int, y: int) -> Rgba {
        let dx = x - self.origin_x();
        let dy = y - self.origin_y();
        if dx < 0 || dy < 0 {
            transparent_color()
        } else {
            let cx = self.transform.scale_x.inverse(dx);
            let cy = self.transform.scale_y.inverse(dy);
            if cx >= self.content.content_width() || cy >= self.content.content_height() {
                transparent_color()
            } else {
                let c = self.content.content_pixel(cx, cy);
                Rgba { a: scaled_alpha(c.a as int, self.opacity as int) as u8, ..c }
            }
        }
    }

    /// No clip mask, or a mask with a non-zero value at `(x, y)`.
    pub open spec fn unmasked(&self, x: int, y: int) -> bool {
        match self.clip_mask {
            None => true,
            Some(m) => match m.value_spec(x, y) {
                Some(v) => v != 0,
                None => false,
            },
        }
    }

    /// The color the layer renders at `(x, y)` once its clip mask applies.
    pub open spec fn render_pixel(&self, x: int, y: int) -> Rgba {
        if self.unmasked(x, y) {
            self.source_pixel(x, y)
        } else {
            transparent_color()
        }
    }

    pub open spec fn changed_at(&self, prev: Option<&LayerState>, x: int, y: int) -> bool {
        match prev {
            None => true,
            Some(p) => p.pixel_spec(x, y) != self.render_pixel(x, y),
        }
    }

    pub open spec fn delta_at(&self, x: int, y: int) -> PixelDelta {
        PixelDelta { x: x as u32, y: y as u32, color: self.render_pixel(x, y) }
    }

    /// Deltas of row `y` for the columns `[x1, x)`, left to right.
    pub open spec fn row_changes(&self, prev: Option<&LayerState>, y: int, x1: int, x: int) -> Seq<
        PixelDelta,
    >
        decreases x - x1,
    {
        if x <= x1 {
            Seq::empty()
        } else {
            self.row_changes(prev, y, x1, x - 1) + if self.changed_at(prev, x - 1, y) {
                seq![self.delta_at(x - 1, y)]
            } else {
                Seq::empty()
            }
        }
    }

    /// Deltas of the rows `[y1, y)` over the columns `[x1, x2)`, in row-major order.
    pub open spec fn area_changes(
        &self,
        prev: Option<&LayerState>,
        x1: int,
        x2: int,
        y1: int,
        y: int,
    ) -> Seq<PixelDelta>
        decreases y - y1,
    {
        if y <= y1 {
            Seq::empty()
        } else {
            self.area_changes(prev, x1, x2, y1, y - 1) + self.row_changes(prev, y - 1, x1, x2)
        }
    }

    /// The canvas rectangle that a diff against `prev` must revisit: the
    /// layer's transformed footprint, joined with the previous footprint when
    /// there is a non-empty one, limited to the canvas.
    pub open spec fn bounds_spec(&self, prev: Option<&LayerState>) -> Rectangle {
        let (lo_x, hi_x, lo_y, hi_y) = match prev {
            Some(p) => if p.is_empty_area() {
                (
                    self.origin_x(),
                    self.origin_x() + self.extent_x(),
                    self.origin_y(),
                    self.origin_y() + self.extent_y(),
                )
            } else {
                (
                    min(self.origin_x(), p.x as int),
                    max(self.origin_x() + self.extent_x(), p.x + p.width),
                    min(self.origin_y(), p.y as int),
                    max(self.origin_y() + self.extent_y(), p.y + p.height),
                )
            },
            None => (
                self.origin_x(),
                self.origin_x() + self.extent_x(),
                self.origin_y(),
                self.origin_y() + self.extent_y(),
            ),
        };
        let x1 = clamp(lo_x, 0, canvas_limit());
        let x2 = clamp(hi_x, x1, canvas_limit());
        let y1 = clamp(lo_y, 0, canvas_limit());
        let y2 = clamp(hi_y, y1, canvas_limit());
        region(x1, y1, x2 - x1, y2 - y1)
    }

    /// Whether a diff against `prev` has nothing to do: the layer is hidden,
    /// its content has no area, or its fingerprint matches the previous one.
    pub open spec fn skips(&self, prev: Option<&LayerState>) -> bool {
        ||| !self.visible
        ||| self.content.content_width() == 0
        ||| self.content.content_height() == 0
        ||| match prev {
            Some(p) => p.hash == self.last_render_hash,
            None => false,
        }
    }

    /// The deltas of a diff against `prev`.
    pub open spec fn changes_spec(&self, prev: Option<&LayerState>) -> Seq<PixelDelta> {
        if self.skips(prev) {
            Seq::empty()
        } else {
            let b = self.bounds_spec(prev);
            self.area_changes(prev, b.x1 as int, b.x2 as int, b.y1 as int, b.y2 as int)
        }
    }

    /// The dirty regions of a diff against `prev`: the affected bounds, when
    /// any delta came out.
    pub open spec fn regions_spec(&self, prev: Option<&LayerState>) -> Option<Seq<Rectangle>> {
        if self.changes_spec(prev).len() == 0 {
            None
        } else {
            Some(seq![self.bounds_spec(prev)])
        }
    }

    /// A visible, fully opaque layer with blend mode Normal, no clip mask and
    /// fingerprint 0; refused when the transform is not valid.
    pub fn new(content: T, position: (i64, i64), transform: Transform) -> (r: Result<
        Layer<T>,
        ConfigError,
    >)
        ensures
            match r {
                Ok(l) => {
                    &&& transform.valid()
                    &&& l.content == content
                    &&& l.position == position
                    &&& l.transform == transform
                    &&& l.z_index == 0
                    &&& l.opacity == 255
                    &&& l.blend_mode == BlendMode::Normal
                    &&& l.visible
                    &&& l.clip_mask.is_none()
                    &&& l.last_render_hash == 0
                },
                Err(e) => transform.validation_spec() == Err::<(), ConfigError>(e),
            },
    {
        match transform.validate() {
            Err(e) => Err(e),
            Ok(()) => Ok(
                Layer {
                    content,
                    position,
                    z_index: 0,
                    opacity: 255,
                    blend_mode: BlendMode::Normal,
                    transform,
                    visible: true,
                    clip_mask: None,
                    last_render_hash: 0,
                },
            ),
        }
    }

    /// Whether the fingerprint matches the one recorded in `prev_state`.
    pub fn unchanged_since(&self, prev_state: &LayerState) -> (r: bool)
        ensures
            r == (self.last_render_hash == prev_state.hash),
    {
        self.last_render_hash == prev_state.hash
    }

    fn origin(&self) -> (r: (i128, i128))
        ensures
            r.0 == self.origin_x(),
            r.1 == self.origin_y(),
    {
        (
            self.position.0 as i128 + self.transform.translate_x as i128,
            self.position.1 as i128 + self.transform.translate_y as i128,
        )
    }

    /// The layer's source color at canvas `(x, y)`, before any clip mask.
    pub fn compute_pixel_at(&self, x: u32, y: u32) -> (c: Rgba)
        requires
            self.transform.valid(),
        ensures
            c == self.source_pixel(x as int, y as int),
    {
        let (ox, oy) = self.origin();
        let dx = x as i128 - ox;
        let dy = y as i128 - oy;
        if dx < 0 || dy < 0 {
            return Rgba::transparent();
        }
        let cx = self.transform.scale_x.inverse_of(dx as u128);
        let cy = self.transform.scale_y.inverse_of(dy as u128);
        if cx >= self.content.width() as u128 || cy >= self.content.height() as u128 {
            return Rgba::transparent();
        }
        let base = self.content.pixel_at(cx as u32, cy as u32);
        assert(base.a * self.opacity <= 255 * 255) by (nonlinear_arith)
            requires
                base.a <= 255,
                self.opacity <= 255,
        ;
        let alpha = (base.a as u32 * self.opacity as u32 / 255) as u8;
        Rgba { r: base.r, g: base.g, b: base.b, a: alpha }
    }

    fn render_pixel_at(&self, x: u32, y: u32) -> (c: Rgba)
        requires
            self.transform.valid(),
        ensures
            c == self.render_pixel(x as int, y as int),
    {
        match &self.clip_mask {
            Some(mask) => match mask.value_at(x, y) {
                Some(v) => if v != 0 {
                    self.compute_pixel_at(x, y)
                } else {
                    Rgba::transparent()
                },
                None => Rgba::transparent(),
            },
            None => self.compute_pixel_at(x, y),
        }
    }

    /// The rectangle a diff against `prev_state` revisits (see `bounds_spec`).
    pub fn get_affected_bounds(&self, prev_state: Option<&LayerState>) -> (r: Rectangle)
        requires
            self.transform.valid(),
        ensures
            r == self.bounds_spec(prev_state),
            r.x1 <= r.x2,
            r.y1 <= r.y2,
    {
        let (ox, oy) = self.origin();
        let (ex, ey) = self.extent();
        let cur_x2 = ox as i128 + ex as i128;
        let cur_y2 = oy as i128 + ey as i128;
        let (lo_x, hi_x, lo_y, hi_y) = match prev_state {
            Some(p) => if p.width == 0 || p.height == 0 {
                (ox as i128, cur_x2, oy as i128, cur_y2)
            } else {
                let px2 = p.x as i128 + p.width as i128;
                let py2 = p.y as i128 + p.height as i128;
                (
                    if (ox as i128) <= p.x as i128 { ox as i128 } else { p.x as i128 },
                    if cur_x2 >= px2 { cur_x2 } else { px2 },
                    if (oy as i128) <= p.y as i128 { oy as i128 } else { p.y as i128 },
                    if cur_y2 >= py2 { cur_y2 } else { py2 },
                )
            },
            None => (ox as i128, cur_x2, oy as i128, cur_y2),
        };
        let limit = u32::MAX as i128;
        let x1 = if lo_x < 0 { 0 } else if lo_x > limit { limit } else { lo_x };
        let x2 = if hi_x < x1 { x1 } else if hi_x > limit { limit } else { hi_x };
        let y1 = if lo_y < 0 { 0 } else if lo_y > limit { limit } else { lo_y };
        let y2 = if hi_y < y1 { y1 } else if hi_y > limit { limit } else { hi_y };
        Rectangle {
            x1: x1 as u32,
            y1: y1 as u32,
            x2: x2 as u32,
            y2: y2 as u32,
            width: (x2 - x1) as u32,
            height: (y2 - y1) as u32,
            border: None,
            filled: false,
            fill_color: None,
        }
    }

    /// The pixels that changed since `prev_state` (every pixel of the
    /// footprint when there is none), in row-major order over the affected
    /// bounds, with those bounds as the one dirty region when any changed.
    pub fn collect_changes(&self, prev_state: Option<&LayerState>) -> (d: DeltaBuffer)
        requires
            self.transform.valid(),
        ensures
            d.changes@ == self.changes_spec(prev_state),
            match self.regions_spec(prev_state) {
                None => d.dirty_regions.is_none(),
                Some(rs) => d.dirty_regions.is_some() && d.dirty_regions.unwrap()@ == rs,
            },
            !self.visible ==> d.is_empty_spec(),
            (prev_state.is_some() && prev_state.unwrap().hash == self.last_render_hash)
                ==> d.is_empty_spec(),
    {
        let skip = match prev_state {
            Some(p) => self.unchanged_since(p),
            None => false,
        };
        if !self.visible || self.content.width() == 0 || self.content.height() == 0 || skip {
            return DeltaBuffer::new();
        }
        let bounds = self.get_affected_bounds(prev_state);
        let ghost x1 = bounds.x1 as int;
        let ghost x2 = bounds.x2 as int;
        let ghost y1 = bounds.y1 as int;
        let mut changes: Vec<PixelDelta> = Vec::new();
        let mut y: u32 = bounds.y1;
        while y < bounds.y2
            invariant
                self.transform.valid(),
                bounds == self.bounds_spec(prev_state),
                x1 == bounds.x1,
                x2 == bounds.x2,
                y1 == bounds.y1,
                x1 <= x2,
                bounds.y1 <= y <= bounds.y2,
                changes@ == self.area_changes(prev_state, x1, x2, y1, y as int),
            decreases bounds.y2 - y,
        {
            let mut x: u32 = bounds.x1;
            while x < bounds.x2
                invariant
                    self.transform.valid(),
                    x1 == bounds.x1,
                    x2 == bounds.x2,
                    bounds.x1 <= x <= bounds.x2,
                    bounds.y1 <= y < bounds.y2,
                    changes@ == self.area_changes(prev_state, x1, x2, y1, y as int)
                        + self.row_changes(prev_state, y as int, x1, x as int),
                decreases bounds.x2 - x,
            {
                let color = self.render_pixel_at(x, y);
                let changed = match prev_state {
                    None => true,
                    Some(p) => p.pixel_at(x, y) != color,
                };
                if changed {
                    changes.push(PixelDelta { x, y, color });
                }
                proof {
                    let prev_row = self.row_changes(prev_state, y as int, x1, x as int);
                    assert(self.row_changes(prev_state, y as int, x1, x + 1) == prev_row + if changed {
                        seq![self.delta_at(x as int, y as int)]
                    } else {
                        Seq::<PixelDelta>::empty()
                    });
                    assert(changes@ =~= self.area_changes(prev_state, x1, x2, y1, y as int)
                        + self.row_changes(prev_state, y as int, x1, x + 1));
                }
                x = x + 1;
            }
            proof {
                assert(changes@ =~= self.area_changes(prev_state, x1, x2, y1, y + 1));
            }
            y = y + 1;
        }
        if changes.len() == 0 {
            DeltaBuffer { changes, dirty_regions: None }
        } else {
            let mut regions: Vec<Rectangle> = Vec::new();
            regions.push(bounds);
            proof {
                assert(regions@ =~= seq![bounds]);
            }
            DeltaBuffer { changes, dirty_regions: Some(regions) }
        }
    }

    /// The record of this layer's current render: its footprint on the
    /// canvas, the color of its first content pixel as representative, its
    /// presentation state and its fingerprint.
    pub open spec fn snapshot_spec(&self) -> LayerState {
        let b = self.bounds_spec(None);
        LayerState {
            x: b.x1,
            y: b.y1,
            width: b.width,
            height: b.height,
            color: self.source_pixel(self.origin_x(), self.origin_y()),
            opacity: self.opacity,
            z_index: self.z_index,
            blend_mode: self.blend_mode,
            hash: self.last_render_hash,
        }
    }

    /// Records this layer's render, to diff the next frame against.
    pub fn snapshot(&self) -> (s: LayerState)
        requires
            self.transform.valid(),
        ensures
            s == self.snapshot_spec(),
    {
        let b = self.get_affected_bounds(None);
        let (ox, oy) = self.origin();
        let color = if self.content.width() > 0 && self.content.height() > 0 {
            let base = self.content.pixel_at(0, 0);
            assert(base.a * self.opacity <= 255 * 255) by (nonlinear_arith)
                requires
                    base.a <= 255,
                    self.opacity <= 255,
            ;
            Rgba { r: base.r, g: base.g, b: base.b, a: (base.a as u32 * self.opacity as u32 / 255) as u8 }
        } else {
            Rgba::transparent()
        };
        proof {
            assert(self.transform.scale_x.inverse(0) == 0);
            assert(self.transform.scale_y.inverse(0) == 0);
        }
        LayerState {
            x: b.x1,
            y: b.y1,
            width: b.width,
            height: b.height,
            color,
            opacity: self.opacity,
            z_index: self.z_index,
            blend_mode: self.blend_mode,
            hash: self.last_render_hash,
        }
    }

    /// Every content pixel has the color `c`.
    pub open spec fn uniform(&self, c: Rgba) -> bool {
        forall|cx: int, cy: int|
            0 <= cx < self.content.content_width() && 0 <= cy < self.content.content_height()
                ==> #[trigger] self.content.content_pixel(cx, cy) == c
    }

    /// The transformed footprint lies inside the canvas.
    pub open spec fn on_canvas(&self) -> bool {
        &&& 0 <= self.origin_x()
        &&& 0 <= self.origin_y()
        &&& self.origin_x() + self.extent_x() <= canvas_limit()
        &&& self.origin_y() + self.extent_y() <= canvas_limit()
    }
}

proof fn lemma_row_unchanged<T: PixelProvider>(
    layer: &Layer<T>,
    prev: Option<&LayerState>,
    y: int,
    x1: int,
    x: int,
)
    requires
        forall|i: int| x1 <= i < x ==> !#[trigger] layer.changed_at(prev, i, y),
    ensures
        layer.row_changes(prev, y, x1, x).len() == 0,
    decreases x - x1,
{
    if x > x1 {
        lemma_row_unchanged(layer, prev, y, x1, x - 1);
        assert(!layer.changed_at(prev, x - 1, y));
    }
}

proof fn lemma_area_unchanged<T: PixelProvider>(
    layer: &Layer<T>,
    prev: Option<&LayerState>,
    x1: int,
    x2: int,
    y1: int,
    y: int,
)
    requires
        forall|i: int, j: int| x1 <= i < x2 && y1 <= j < y ==> !#[trigger] layer.changed_at(prev, i, j),
    ensures
        layer.area_changes(prev, x1, x2, y1, y).len() == 0,
    decreases y - y1,
{
    if y > y1 {
        lemma_area_unchanged(layer, prev, x1, x2, y1, y - 1);
        assert forall|i: int| x1 <= i < x2 implies !#[trigger] layer.changed_at(prev, i, y - 1) by {
            assert(!layer.changed_at(prev, i, y - 1));
        }
        lemma_row_unchanged(layer, prev, y - 1, x1, x2);
    }
}

/// Diffing a layer against its own snapshot finds nothing to redraw: the
/// snapshot carries the layer's fingerprint, so the result is empty.
pub proof fn lemma_snapshot_round_trip<T: PixelProvider>(layer: &Layer<T>)
    ensures
        layer.changes_spec(Some(&layer.snapshot_spec())).len() == 0,
        layer.regions_spec(Some(&layer.snapshot_spec())).is_none(),
{
}

/// A layer whose content is one solid color, without a clip mask and lying
/// on the canvas, renders exactly what its snapshot records: diffing against
/// the snapshot finds nothing to redraw whatever fingerprint the snapshot
/// holds.
/// A scaled run of `len >= 1` content pixels covers at least one canvas
/// pixel, and every canvas offset inside it falls on a content pixel.
proof fn lemma_scale_covers(scale: Scale, len: int, offset: int)
    requires
        scale.valid(),
        len >= 1,
        len <= u32::MAX,
    ensures
        scale.extent(len) >= 1,
        0 <= offset < scale.extent(len) ==> 0 <= scale.inverse(offset) < len,
{
    let n = scale.num as int;
    let d = scale.den as int;
    assert(n * len >= 1) by (nonlinear_arith)
        requires
            n >= 1,
            len >= 1,
    ;
    lemma_ceil_div(n * len, d);
    let q = scale.extent(len);
    if 0 <= offset < q {
        assert(offset * d < n * len) by (nonlinear_arith)
            requires
                0 <= offset <= q - 1,
                q * d < n * len + d,
                d > 0,
        ;
        lemma_multiply_divide_lt(offset * d, n, len);
        assert(offset * d / n >= 0) by (nonlinear_arith)
            requires
                offset >= 0,
                d > 0,
                n > 0,
        ;
    }
}

pub proof fn lemma_solid_snapshot_round_trip<T: PixelProvider>(
    layer: &Layer<T>,
    c: Rgba,
    hash: u64,
)
    requires
        layer.transform.valid(),
        layer.uniform(c),
        layer.clip_mask.is_none(),
        layer.on_canvas(),
    ensures
        layer.changes_spec(Some(&LayerState { hash, ..layer.snapshot_spec() })).len() == 0,
        layer.regions_spec(Some(&LayerState { hash, ..layer.snapshot_spec() })).is_none(),
{
    let state = LayerState { hash, ..layer.snapshot_spec() };
    let prev = Some(&state);
    if !layer.skips(prev) {
        let w = layer.content.content_width() as int;
        let h = layer.content.content_height() as int;
        lemma_scale_covers(layer.transform.scale_x, w, 0);
        lemma_scale_covers(layer.transform.scale_y, h, 0);
        let b = layer.bounds_spec(prev);
        assert(b == layer.bounds_spec(None));
        assert(layer.uniform(c));
        assert(layer.content.content_pixel(0, 0) == c);
        assert forall|i: int, j: int|
            b.x1 <= i < b.x2 && b.y1 <= j < b.y2 implies !#[trigger] layer.changed_at(prev, i, j) by {
            let dx = i - layer.origin_x();
            let dy = j - layer.origin_y();
            lemma_scale_covers(layer.transform.scale_x, w, dx);
            lemma_scale_covers(layer.transform.scale_y, h, dy);
            assert(layer.content.content_pixel(
                layer.transform.scale_x.inverse(dx),
                layer.transform.scale_y.inverse(dy),
            ) == c);
        }
        lemma_area_unchanged(layer, prev, b.x1 as int, b.x2 as int, b.y1 as int, b.y2 as int);
    }
}

/// `a` comes before `b` in row-major order.
pub open spec fn row_major_before(a: PixelDelta, b: PixelDelta) -> bool {
    a.y < b.y || (a.y == b.y && a.x < b.x)
}

proof fn lemma_row_shape<T: PixelProvider>(
    layer: &Layer<T>,
    prev: Option<&LayerState>,
    y: int,
    x1: int,
    x: int,
)
    requires
        0 <= x1 <= x <= u32::MAX,
        0 <= y <= u32::MAX,
    ensures
        forall|k: int|
            0 <= k < layer.row_changes(prev, y, x1, x).len() ==> {
                let d = #[trigger] layer.row_changes(prev, y, x1, x)[k];
                d.y == y && x1 <= d.x < x
            },
        forall|k: int, l: int|
            0 <= k < l < layer.row_changes(prev, y, x1, x).len() ==> #[trigger] layer.row_changes(
                prev,
                y,
                x1,
                x,
            )[k].x < #[trigger] layer.row_changes(prev, y, x1, x)[l].x,
    decreases x - x1,
{
    if x > x1 {
        lemma_row_shape(layer, prev, y, x1, x - 1);
        let head = layer.row_changes(prev, y, x1, x - 1);
        let r = layer.row_changes(prev, y, x1, x);
        assert forall|k: int| 0 <= k < r.len() implies {
            let d = #[trigger] r[k];
            d.y == y && x1 <= d.x < x
        } by {
            if k < head.len() {
                assert(r[k] == head[k]);
            }
        }
        assert forall|k: int, l: int| 0 <= k < l < r.len() implies #[trigger] r[k].x < #[trigger] r[l].x by {
            assert(r[k] == head[k]);
            if l < head.len() {
                assert(r[l] == head[l]);
            }
        }
    }
}

proof fn lemma_area_shape<T: PixelProvider>(
    layer: &Layer<T>,
    prev: Option<&LayerState>,
    x1: int,
    x2: int,
    y1: int,
    y: int,
)
    requires
        0 <= x1 <= x2 <= u32::MAX,
        0 <= y1 <= y <= u32::MAX,
    ensures
        forall|k: int|
            0 <= k < layer.area_changes(prev, x1, x2, y1, y).len() ==> {
                let d = #[trigger] layer.area_changes(prev, x1, x2, y1, y)[k];
                y1 <= d.y < y && x1 <= d.x < x2
            },
        forall|k: int, l: int|
            0 <= k < l < layer.area_changes(prev, x1, x2, y1, y).len() ==> row_major_before(
                #[trigger] layer.area_changes(prev, x1, x2, y1, y)[k],
                #[trigger] layer.area_changes(prev, x1, x2, y1, y)[l],
            ),
    decreases y - y1,
{
    if y > y1 {
        lemma_area_shape(layer, prev, x1, x2, y1, y - 1);
        lemma_row_shape(layer, prev, y - 1, x1, x2);
        let head = layer.area_changes(prev, x1, x2, y1, y - 1);
        let row = layer.row_changes(prev, y - 1, x1, x2);
        let r = layer.area_changes(prev, x1, x2, y1, y);
        assert(r == head + row);
        assert forall|k: int| 0 <= k < r.len() implies {
            let d = #[trigger] r[k];
            y1 <= d.y < y && x1 <= d.x < x2
        } by {
            if k < head.len() {
                assert(r[k] == head[k]);
            } else {
                assert(r[k] == row[k - head.len()]);
            }
        }
        assert forall|k: int, l: int| 0 <= k < l < r.len() implies row_major_before(
            #[trigger] r[k],
            #[trigger] r[l],
        ) by {
            if l < head.len() {
                assert(r[k] == head[k] && r[l] == head[l]);
            } else if k < head.len() {
                assert(r[k] == head[k] && r[l] == row[l - head.len()]);
            } else {
                assert(r[k] == row[k - head.len()] && r[l] == row[l - head.len()]);
            }
        }
    }
}

/// Every delta of a diff lies inside its affected bounds, so at coordinates
/// in `[0, u32::MAX)`, and the deltas come in strictly row-major order, each
/// pixel at most once. Deltas beyond a particular canvas's size are dropped
/// when the buffer is applied (see `apply_delta_spec`).
pub proof fn lemma_changes_within_bounds<T: PixelProvider>(
    layer: &Layer<T>,
    prev: Option<&LayerState>,
)
    ensures
        forall|k: int|
            0 <= k < layer.changes_spec(prev).len() ==> {
                let d = #[trigger] layer.changes_spec(prev)[k];
                let b = layer.bounds_spec(prev);
                b.x1 <= d.x < b.x2 && b.y1 <= d.y < b.y2
            },
        forall|k: int, l: int|
            0 <= k < l < layer.changes_spec(prev).len() ==> row_major_before(
                #[trigger] layer.changes_spec(prev)[k],
                #[trigger] layer.changes_spec(prev)[l],
            ),
{
    if !layer.skips(prev) {
        let b = layer.bounds_spec(prev);
        lemma_area_shape(layer, prev, b.x1 as int, b.x2 as int, b.y1 as int, b.y2 as int);
    }
}

} // verus!
