use vstd::prelude::*;

use crate::color::Rgba;
use crate::rectangle::Rectangle;

verus! {

/// One changed pixel: absolute canvas coordinates and the new source color,
/// already adjusted for the layer's opacity.
#[derive(Clone, Copy, Debug)]
pub struct PixelDelta {
    pub x: u32,
    pub y: u32,
    pub color: Rgba,
}

/// The pixels that changed between two renders of a layer, in row-major
/// order, with the regions that hold them.
#[derive(Debug)]
pub struct DeltaBuffer {
    pub changes: Vec<PixelDelta>,
    pub dirty_regions: Option<Vec<Rectangle>>,
}

impl DeltaBuffer {
    /// A buffer with no changes and no dirty regions.
    pub open spec fn is_empty_spec(&self) -> bool {
        self.changes@.len() == 0 && self.dirty_regions.is_none()
    }

    pub fn new() -> (d: DeltaBuffer)
        ensures
            d.is_empty_spec(),
    {
        DeltaBuffer { changes: Vec::new(), dirty_regions: None }
    }

    pub fn is_empty(&self) -> (r: bool)
        ensures
            r == (self.changes@.len() == 0),
    {
        self.changes.len() == 0
    }
}

impl Default for DeltaBuffer {
    fn default() -> (d: DeltaBuffer)
        ensures
            d.is_empty_spec(),
    {
        DeltaBuffer::new()
    }
}

} // verus!
