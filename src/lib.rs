//! Layer-based incremental compositing: pixel sources wrapped in layers,
//! per-layer change detection into delta buffers, and blend-mode compositing
//! of those deltas onto an RGBA canvas.

pub mod barcode;
pub mod batch;
pub mod builders;
pub mod color;
pub mod compositor;
pub mod delta_buffer;
pub mod layer;
pub mod rectangle;
pub mod rendering;
pub mod text;
