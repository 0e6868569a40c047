use vstd::prelude::*;
use vstd::arithmetic::div_mod::lemma_multiply_divide_lt;

use crate::color::Rgba;
use crate::color::transparent_color;
use crate::delta_buffer::{DeltaBuffer, PixelDelta};
use crate::layer::PixelProvider;

verus! {

/// How a layer's source color combines with the destination canvas color.
#[derive(Clone, Copy, Debug, PartialEq, Eq, Structural)]
pub enum BlendMode {
    Normal,
    Multiply,
    Screen,
    Overlay,
    Darken,
    Lighten,
}

/// The blend formula of `mode` on one channel, with channel values read as
/// fractions of 255 (`s` the source, `d` the destination), rounded down.
pub open spec fn blend_channel_spec(mode: BlendMode, s: int, d: int) -> int {
    match mode {
        BlendMode::Normal => s,
        BlendMode::Multiply => s * d / 255,
        BlendMode::Screen => 255 - (255 - s) * (255 - d) / 255,
        BlendMode::Overlay => if 2 * d < 255 {
            2 * s * d / 255
        } else {
            255 - 2 * (255 - s) * (255 - d) / 255
        },
        BlendMode::Darken => if s <= d { s } else { d },
        BlendMode::Lighten => if s >= d { s } else { d },
    }
}

/// The source channel as it shows where it meets the destination: the
/// blend result where the destination is opaque, the plain source color where
/// the destination is transparent, mixed by the destination alpha `da`.
pub open spec fn blended_source_spec(mode: BlendMode, s: int, d: int, da: int) -> int {
    ((255 - da) * s + da * blend_channel_spec(mode, s, d)) / 255
}

/// The alpha of the result scaled by 255: the source alpha plus what the
/// destination shows through it.
pub open spec fn coverage_spec(sa: int, da: int) -> int {
    sa * 255 + da * (255 - sa)
}

/// Source-over with straight alpha: the blended source weighted by its alpha
/// plus the destination weighted by what shows through, divided by the
/// resulting alpha; zero where nothing covers the pixel.
pub open spec fn mix_channel_spec(mode: BlendMode, s: int, sa: int, d: int, da: int) -> int {
    if coverage_spec(sa, da) == 0 {
        0
    } else {
        (blended_source_spec(mode, s, d, da) * sa * 255 + d * da * (255 - sa)) / coverage_spec(sa, da)
    }
}

/// Source-over alpha: the source alpha plus what the destination shows through.
pub open spec fn mix_alpha_spec(sa: int, da: int) -> int {
    sa + da * (255 - sa) / 255
}

/// The color that results from drawing `src` over `dst` with `mode`.
pub open spec fn composite_spec(mode: BlendMode, src: Rgba, dst: Rgba) -> Rgba {
    Rgba {
        r: mix_channel_spec(mode, src.r as int, src.a as int, dst.r as int, dst.a as int) as u8,
        g: mix_channel_spec(mode, src.g as int, src.a as int, dst.g as int, dst.a as int) as u8,
        b: mix_channel_spec(mode, src.b as int, src.a as int, dst.b as int, dst.a as int) as u8,
        a: mix_alpha_spec(src.a as int, dst.a as int) as u8,
    }
}

proof fn lemma_blend_channel_range(mode: BlendMode, s: int, d: int)
    requires
        0 <= s <= 255,
        0 <= d <= 255,
    ensures
        0 <= blend_channel_spec(mode, s, d) <= 255,
{
    match mode {
        BlendMode::Multiply => {
            assert(0 <= s * d <= 255 * 255) by (nonlinear_arith)
                requires
                    0 <= s <= 255,
                    0 <= d <= 255,
            ;
        },
        BlendMode::Screen => {
            assert(0 <= (255 - s) * (255 - d) <= 255 * 255) by (nonlinear_arith)
                requires
                    0 <= s <= 255,
                    0 <= d <= 255,
            ;
        },
        BlendMode::Overlay => {
            if 2 * d < 255 {
                assert(0 <= 2 * s * d <= 255 * 254) by (nonlinear_arith)
                    requires
                        0 <= s <= 255,
                        0 <= d <= 127,
                ;
            } else {
                assert(0 <= 2 * (255 - s) * (255 - d) <= 255 * 254) by (nonlinear_arith)
                    requires
                        0 <= s <= 255,
                        128 <= d <= 255,
                ;
            }
        },
        _ => {},
    }
}

proof fn lemma_mix_range(mode: BlendMode, s: int, sa: int, d: int, da: int)
    requires
        0 <= s <= 255,
        0 <= sa <= 255,
        0 <= d <= 255,
        0 <= da <= 255,
    ensures
        0 <= blended_source_spec(mode, s, d, da) <= 255,
        0 <= coverage_spec(sa, da) <= 255 * 255,
        0 <= blended_source_spec(mode, s, d, da) * sa * 255 + d * da * (255 - sa) <= 255
            * coverage_spec(sa, da),
        0 <= mix_channel_spec(mode, s, sa, d, da) <= 255,
        0 <= mix_alpha_spec(sa, da) <= 255,
{
    lemma_blend_channel_range(mode, s, d);
    let b = blend_channel_spec(mode, s, d);
    assert(0 <= (255 - da) * s + da * b <= 255 * 255) by (nonlinear_arith)
        requires
            0 <= b <= 255,
            0 <= s <= 255,
            0 <= da <= 255,
    ;
    let bs = blended_source_spec(mode, s, d, da);
    let cov = coverage_spec(sa, da);
    assert(0 <= da * (255 - sa) <= 255 * (255 - sa)) by (nonlinear_arith)
        requires
            0 <= da <= 255,
            0 <= sa <= 255,
    ;
    let num = bs * sa * 255 + d * da * (255 - sa);
    assert(0 <= num <= 255 * cov) by (nonlinear_arith)
        requires
            0 <= bs <= 255,
            0 <= sa <= 255,
            0 <= d <= 255,
            0 <= da <= 255,
            num == bs * sa * 255 + d * da * (255 - sa),
            cov == sa * 255 + da * (255 - sa),
    ;
    if cov != 0 {
        lemma_multiply_divide_lt(num, cov, 256);
        assert(num / cov >= 0) by (nonlinear_arith)
            requires
                num >= 0,
                cov > 0,
        ;
    }
}

fn blend_channel(mode: BlendMode, s: u8, d: u8) -> (r: u32)
    ensures
        r == blend_channel_spec(mode, s as int, d as int),
        r <= 255,
{
    proof {
        lemma_blend_channel_range(mode, s as int, d as int);
    }
    let s = s as u32;
    let d = d as u32;
    match mode {
        BlendMode::Normal => s,
        BlendMode::Multiply => s * d / 255,
        BlendMode::Screen => 255 - (255 - s) * (255 - d) / 255,
        BlendMode::Overlay => if 2 * d < 255 {
            2 * s * d / 255
        } else {
            255 - 2 * (255 - s) * (255 - d) / 255
        },
        BlendMode::Darken => if s <= d { s } else { d },
        BlendMode::Lighten => if s >= d { s } else { d },
    }
}

fn mix_channel(mode: BlendMode, s: u8, sa: u8, d: u8, da: u8) -> (r: u8)
    ensures
        r == mix_channel_spec(mode, s as int, sa as int, d as int, da as int),
{
    proof {
        lemma_mix_range(mode, s as int, sa as int, d as int, da as int);
    }
    let b = blend_channel(mode, s, d) as u64;
    let s = s as u64;
    let sa = sa as u64;
    let d = d as u64;
    let da = da as u64;
    let coverage = sa * 255 + da * (255 - sa);
    if coverage == 0 {
        return 0;
    }
    let source = ((255 - da) * s + da * b) / 255;
    assert(d * da <= 255 * 255) by (nonlinear_arith)
        requires
            d <= 255,
            da <= 255,
    ;
    ((source * sa * 255 + d * da * (255 - sa)) / coverage) as u8
}

/// Draws `src` over `dst` with the blend formula of `mode`.
pub fn composite(mode: BlendMode, src: Rgba, dst: Rgba) -> (c: Rgba)
    ensures
        c == composite_spec(mode, src, dst),
{
    proof {
        lemma_mix_range(mode, 0, src.a as int, 0, dst.a as int);
    }
    let sa = src.a as u32;
    let a = (sa + (dst.a as u32) * (255 - sa) / 255) as u8;
    Rgba {
        r: mix_channel(mode, src.r, src.a, dst.r, dst.a),
        g: mix_channel(mode, src.g, src.a, dst.g, dst.a),
        b: mix_channel(mode, src.b, src.a, dst.b, dst.a),
        a,
    }
}

/// Multiply against white is the identity: any source channel blended with a
/// full destination channel comes back unchanged, and an opaque source
/// composited with Multiply over a white pixel yields the source color,
/// whatever the destination's alpha. A translucent source covers only its
/// alpha's share of the pixel: source-over lets the white destination show
/// through the rest, so there the result lies between the source and white.
pub proof fn lemma_multiply_white_identity(src: Rgba, dst: Rgba)
    requires
        dst.r == 255,
        dst.g == 255,
        dst.b == 255,
    ensures
        forall|s: int| 0 <= s <= 255 ==> #[trigger] blend_channel_spec(BlendMode::Multiply, s, 255) == s,
        src.a == 255 ==> composite_spec(BlendMode::Multiply, src, dst).r == src.r,
        src.a == 255 ==> composite_spec(BlendMode::Multiply, src, dst).g == src.g,
        src.a == 255 ==> composite_spec(BlendMode::Multiply, src, dst).b == src.b,
        src.a == 255 ==> composite_spec(BlendMode::Multiply, src, dst).a == 255,
{
    assert forall|s: int| 0 <= s <= 255 implies #[trigger] blend_channel_spec(BlendMode::Multiply, s, 255) == s by {
        assert(s * 255 / 255 == s) by (nonlinear_arith);
    }
    let da = dst.a as int;
    assert forall|s: int| 0 <= s <= 255 implies #[trigger] mix_channel_spec(BlendMode::Multiply, s, 255, 255, da) == s by {
        assert(blend_channel_spec(BlendMode::Multiply, s, 255) == s);
        assert(((255 - da) * s + da * s) / 255 == s) by (nonlinear_arith)
            requires
                0 <= s <= 255,
        ;
        assert(coverage_spec(255, da) == 255 * 255);
        assert((s * 255 * 255 + 255 * da * 0) / 65025int == s) by (nonlinear_arith)
            requires
                0 <= s <= 255,
        ;
    }
    assert(mix_channel_spec(BlendMode::Multiply, src.r as int, 255, 255, da) == src.r);
    assert(mix_channel_spec(BlendMode::Multiply, src.g as int, 255, 255, da) == src.g);
    assert(mix_channel_spec(BlendMode::Multiply, src.b as int, 255, 255, da) == src.b);
}

/// An RGBA raster, four bytes per pixel, row by row.
#[derive(Clone, Debug)]
pub struct Canvas {
    pub width: u32,
    pub height: u32,
    pub pixels: Vec<u8>,
}

/// Why a delta buffer could not be applied to a canvas.
#[derive(Clone, Copy, Debug, PartialEq, Eq, Structural)]
pub enum CompositeError {
    /// The pixel buffer does not hold four bytes for each pixel.
    BufferSizeMismatch,
    /// The canvas is too large to allocate.
    TooLarge,
}

/// Where pixel `(x, y)` starts in the buffer of a canvas `w` pixels wide.
pub open spec fn pixel_index(w: int, x: int, y: int) -> int {
    4 * (y * w + x)
}

pub open spec fn read_pixel(px: Seq<u8>, i: int) -> Rgba {
    Rgba { r: px[i], g: px[i + 1], b: px[i + 2], a: px[i + 3] }
}

pub open spec fn write_pixel(px: Seq<u8>, i: int, c: Rgba) -> Seq<u8> {
    px.update(i, c.r).update(i + 1, c.g).update(i + 2, c.b).update(i + 3, c.a)
}

/// The buffer after drawing one delta with `mode`; a delta outside the
/// canvas leaves it as it is.
pub open spec fn apply_delta_spec(px: Seq<u8>, w: int, h: int, d: PixelDelta, mode: BlendMode) -> Seq<
    u8,
> {
    if d.x < w && d.y < h {
        let i = pixel_index(w, d.x as int, d.y as int);
        write_pixel(px, i, composite_spec(mode, d.color, read_pixel(px, i)))
    } else {
        px
    }
}

/// The buffer after drawing the deltas one after another, in order.
pub open spec fn apply_spec(px: Seq<u8>, w: int, h: int, ds: Seq<PixelDelta>, mode: BlendMode) -> Seq<
    u8,
>
    decreases ds.len(),
{
    if ds.len() == 0 {
        px
    } else {
        apply_delta_spec(apply_spec(px, w, h, ds.drop_last(), mode), w, h, ds.last(), mode)
    }
}

proof fn lemma_pixel_in_buffer(w: int, h: int, x: int, y: int)
    requires
        0 <= x < w,
        0 <= y < h,
    ensures
        0 <= pixel_index(w, x, y),
        pixel_index(w, x, y) + 4 <= 4 * w * h,
        0 <= y * w <= y * w + x < w * h,
{
    assert(0 <= y * w && y * w + x < w * h) by (nonlinear_arith)
        requires
            0 <= x < w,
            0 <= y < h,
    ;
    assert(4 * (w * h) == 4 * w * h) by (nonlinear_arith);
}

impl Canvas {
    /// The buffer holds exactly four bytes for each pixel.
    pub open spec fn wf(&self) -> bool {
        self.pixels@.len() == 4 * self.width * self.height
    }

    /// A fully transparent canvas; too large when its buffer would not fit
    /// in memory's address range.
    pub fn new(width: u32, height: u32) -> (r: Result<Canvas, CompositeError>)
        ensures
            match r {
                Ok(c) => {
                    &&& 4 * width * height <= usize::MAX
                    &&& c.width == width
                    &&& c.height == height
                    &&& c.wf()
                    &&& forall|i: int| 0 <= i < c.pixels@.len() ==> c.pixels@[i] == 0
                },
                Err(e) => e == CompositeError::TooLarge && 4 * width * height > usize::MAX,
            },
    {
        let w = width as u64;
        let h = height as u64;
        assert(w * h <= u32::MAX * u32::MAX) by (nonlinear_arith)
            requires
                w <= u32::MAX,
                h <= u32::MAX,
        ;
        assert(4 * w * h == 4 * (w * h)) by (nonlinear_arith);
        let area = w * h;
        if area > (usize::MAX / 4) as u64 {
            return Err(CompositeError::TooLarge);
        }
        let len = (4 * area) as usize;
        let mut pixels: Vec<u8> = Vec::new();
        while pixels.len() < len
            invariant
                pixels@.len() <= len,
                forall|i: int| 0 <= i < pixels@.len() ==> pixels@[i] == 0,
            decreases len - pixels@.len(),
        {
            pixels.push(0);
        }
        Ok(Canvas { width, height, pixels })
    }

    /// The pixel at `(x, y)`; none outside the canvas or past the buffer's end.
    pub fn get_pixel(&self, x: u32, y: u32) -> (r: Option<Rgba>)
        ensures
            r == if x < self.width && y < self.height && pixel_index(
                self.width as int,
                x as int,
                y as int,
            ) + 4 <= self.pixels@.len() {
                Some(read_pixel(self.pixels@, pixel_index(self.width as int, x as int, y as int)))
            } else {
                None::<Rgba>
            },
    {
        if x >= self.width || y >= self.height {
            return None;
        }
        proof {
            lemma_pixel_in_buffer(self.width as int, self.height as int, x as int, y as int);
            assert(self.width * self.height <= u32::MAX * u32::MAX) by (nonlinear_arith)
                requires
                    self.width <= u32::MAX,
                    self.height <= u32::MAX,
            ;
        }
        let i = 4 * (y as u128 * self.width as u128 + x as u128);
        if i + 4 > self.pixels.len() as u128 {
            return None;
        }
        let i = i as usize;
        Some(Rgba { r: self.pixels[i], g: self.pixels[i + 1], b: self.pixels[i + 2], a: self.pixels[i + 3] })
    }
}

/// A canvas is a pixel source too: rasters drawn elsewhere (text, barcodes)
/// can be wrapped in layers.
impl PixelProvider for Canvas {
    /// The stored pixel, or transparent where the buffer is too short.
    open spec fn content_pixel(&self, x: int, y: int) -> Rgba {
        let i = pixel_index(self.width as int, x, y);
        if i + 4 <= self.pixels@.len() {
            read_pixel(self.pixels@, i)
        } else {
            transparent_color()
        }
    }

    open spec fn content_width(&self) -> u32 {
        self.width
    }

    open spec fn content_height(&self) -> u32 {
        self.height
    }

    fn pixel_at(&self, x: u32, y: u32) -> (c: Rgba) {
        match self.get_pixel(x, y) {
            Some(c) => c,
            None => Rgba::transparent(),
        }
    }

    fn width(&self) -> (w: u32) {
        self.width
    }

    fn height(&self) -> (h: u32) {
        self.height
    }
}

/// Applies delta buffers onto a canvas.
pub struct Compositor;

impl Compositor {
    /// Draws each delta of `delta`, in order, over the canvas pixel at its
    /// coordinates with `blend_mode`; deltas outside the canvas are dropped.
    /// Fails, leaving the canvas untouched, when the buffer size does not match
    /// the canvas size.
    pub fn apply(canvas: &mut Canvas, delta: &DeltaBuffer, blend_mode: BlendMode) -> (r: Result<
        (),
        CompositeError,
    >)
        ensures
            final(canvas).width == old(canvas).width,
            final(canvas).height == old(canvas).height,
            r.is_ok() <==> old(canvas).wf(),
            r.is_err() ==> r == Err::<(), CompositeError>(CompositeError::BufferSizeMismatch)
                && *final(canvas) == *old(canvas),
            r.is_ok() ==> final(canvas).pixels@ == apply_spec(
                old(canvas).pixels@,
                old(canvas).width as int,
                old(canvas).height as int,
                delta.changes@,
                blend_mode,
            ),
    {
        let w = canvas.width as u64;
        let h = canvas.height as u64;
        assert(w * h <= u32::MAX * u32::MAX) by (nonlinear_arith)
            requires
                w <= u32::MAX,
                h <= u32::MAX,
        ;
        assert(4 * w * h == 4 * (w * h)) by (nonlinear_arith);
        let area = w * h;
        let len = canvas.pixels.len();
        if area > (usize::MAX / 4) as u64 {
            assert(canvas.pixels@.len() == len);
            assert(4 * canvas.width * canvas.height == 4 * area);
            assert(!canvas.wf());
            return Err(CompositeError::BufferSizeMismatch);
        }
        let expected = (4 * area) as usize;
        if len != expected {
            return Err(CompositeError::BufferSizeMismatch);
        }
        let ghost start = canvas.pixels@;
        let mut k: usize = 0;
        while k < delta.changes.len()
            invariant
                canvas.width == w,
                canvas.height == h,
                canvas.pixels@.len() == 4 * w * h,
                canvas.pixels@.len() == 4 * (w * h),
                w * h <= usize::MAX / 4,
                0 <= k <= delta.changes@.len(),
                canvas.pixels@ == apply_spec(
                    start,
                    w as int,
                    h as int,
                    delta.changes@.take(k as int),
                    blend_mode,
                ),
            decreases delta.changes@.len() - k,
        {
            let d = delta.changes[k];
            proof {
                assert(delta.changes@.take(k + 1).drop_last() =~= delta.changes@.take(k as int));
                assert(delta.changes@.take(k + 1).last() == d);
            }
            if (d.x as u64) < w && (d.y as u64) < h {
                proof {
                    lemma_pixel_in_buffer(w as int, h as int, d.x as int, d.y as int);
                }
                let i = (4 * (d.y as u64 * w + d.x as u64)) as usize;
                let dst = Rgba {
                    r: canvas.pixels[i],
                    g: canvas.pixels[i + 1],
                    b: canvas.pixels[i + 2],
                    a: canvas.pixels[i + 3],
                };
                let c = composite(blend_mode, d.color, dst);
                canvas.pixels.set(i, c.r);
                canvas.pixels.set(i + 1, c.g);
                canvas.pixels.set(i + 2, c.b);
                canvas.pixels.set(i + 3, c.a);
            }
            k = k + 1;
        }
        proof {
            assert(delta.changes@.take(k as int) =~= delta.changes@);
        }
        Ok(())
    }
}

/// Layer `i` is composited before layer `j`: a lower z-index first, and
/// between equal z-indices the layer created first.
pub open spec fn stacks_before(z: Seq<i32>, i: int, j: int) -> bool {
    z[i] < z[j] || (z[i] == z[j] && i < j)
}

/// The order in which to composite layers with the given z-indices (listed
/// in creation order): every layer index once, in ascending z-index, ties
/// kept in creation order.
pub fn composition_order(z_indices: &Vec<i32>) -> (order: Vec<usize>)
    ensures
        order@.len() == z_indices@.len(),
        forall|i: int| 0 <= i < order@.len() ==> order@[i] < z_indices@.len(),
        forall|i: int, j: int|
            0 <= i < j < order@.len() ==> stacks_before(
                z_indices@,
                #[trigger] order@[i] as int,
                #[trigger] order@[j] as int,
            ),
{
    let n = z_indices.len();
    let mut order: Vec<usize> = Vec::new();
    let mut k: usize = 0;
    while k < n
        invariant
            n == z_indices@.len(),
            k <= n,
            order@.len() == k,
            forall|i: int| 0 <= i < order@.len() ==> order@[i] < k,
            forall|i: int, j: int|
                0 <= i < j < order@.len() ==> stacks_before(
                    z_indices@,
                    #[trigger] order@[i] as int,
                    #[trigger] order@[j] as int,
                ),
        decreases n - k,
    {
        let zk = z_indices[k];
        let mut p: usize = k;
        while p > 0 && z_indices[order[p - 1]] > zk
            invariant
                n == z_indices@.len(),
                k < n,
                zk == z_indices@[k as int],
                order@.len() == k,
                p <= k,
                forall|i: int| 0 <= i < order@.len() ==> order@[i] < k,
                forall|i: int| p <= i < k ==> z_indices@[#[trigger] order@[i] as int] > zk,
            decreases p,
        {
            p = p - 1;
        }
        proof {
            if p > 0 {
                let q = p - 1;
                let a = order@[q as int] as int;
                assert(z_indices@[a] <= zk);
                assert forall|i: int| 0 <= i < p implies stacks_before(z_indices@, #[trigger] order@[i] as int, k as int) by {
                    if i < q {
                        assert(stacks_before(z_indices@, order@[i] as int, order@[q as int] as int));
                    }
                }
            }
        }
        let ghost before = order@;
        order.insert(p, k);
        proof {
            assert forall|i: int, j: int|
                0 <= i < j < order@.len() implies stacks_before(
                z_indices@,
                #[trigger] order@[i] as int,
                #[trigger] order@[j] as int,
            ) by {
                if j < p {
                    assert(stacks_before(z_indices@, before[i] as int, before[j] as int));
                } else if j == p {
                    assert(stacks_before(z_indices@, before[i] as int, k as int));
                } else if i == p {
                    assert(z_indices@[before[j - 1] as int] > zk);
                } else if i < p {
                    assert(stacks_before(z_indices@, before[i] as int, before[j - 1] as int));
                } else {
                    assert(stacks_before(z_indices@, before[i - 1] as int, before[j - 1] as int));
                }
            }
        }
        k = k + 1;
    }
    order
}

} // verus!
